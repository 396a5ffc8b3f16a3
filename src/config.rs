//! Build configuration: JVM profiles, targets and build systems.
use vstd::prelude::*;
use crate::error::PackError;
use crate::text::{has_suffix, owned, push_str, str_eq, str_views};

verus! {

/// Start-up profile of the launched JVM.
#[derive(Debug, Clone, Copy, PartialEq, Eq, Structural)]
pub enum JvmProfile {
    Cli,
    Server,
}

/// The VM flags a profile adds, in order.
pub open spec fn profile_flags(p: JvmProfile) -> Seq<Seq<char>> {
    match p {
        JvmProfile::Cli => seq![
            "-XX:+TieredCompilation"@,
            "-XX:TieredStopAtLevel=1"@,
            "-XX:+UseSerialGC"@,
        ],
        JvmProfile::Server => seq![],
    }
}

pub open spec fn profile_named(s: Seq<char>) -> Option<JvmProfile> {
    if s == "cli"@ {
        Some(JvmProfile::Cli)
    } else if s == "server"@ {
        Some(JvmProfile::Server)
    } else {
        None
    }
}

pub open spec fn profile_gc(p: JvmProfile) -> Option<Seq<char>> {
    match p {
        JvmProfile::Cli => Some("-XX:+UseSerialGC"@),
        JvmProfile::Server => None,
    }
}

pub open spec fn profile_name(p: JvmProfile) -> Seq<char> {
    match p {
        JvmProfile::Cli => "cli"@,
        JvmProfile::Server => "server"@,
    }
}

/// The garbage-collector selection flags the JVM knows.
pub open spec fn known_gc_flags() -> Seq<Seq<char>> {
    seq![
        "-XX:+UseSerialGC"@,
        "-XX:+UseParallelGC"@,
        "-XX:+UseG1GC"@,
        "-XX:+UseZGC"@,
        "-XX:+UseShenandoahGC"@,
        "-XX:+UseEpsilonGC"@,
    ]
}

impl JvmProfile {
    pub fn flags(&self) -> (r: Vec<&'static str>)
        ensures
            str_views(r@) == profile_flags(*self),
    {
        match self {
            JvmProfile::Cli => {
                let r = vec!["-XX:+TieredCompilation", "-XX:TieredStopAtLevel=1", "-XX:+UseSerialGC"];
                assert(str_views(r@) =~= profile_flags(*self));
                r
            },
            JvmProfile::Server => {
                let r: Vec<&'static str> = Vec::new();
                assert(str_views(r@) =~= profile_flags(*self));
                r
            },
        }
    }

    pub fn from_str(s: &str) -> (r: Result<JvmProfile, PackError>)
        ensures
            match profile_named(s@) {
                Some(p) => r == Ok::<JvmProfile, PackError>(p),
                None => r matches Err(PackError::InvalidProfile(m)) && m@ == s@,
            },
    {
        if str_eq(s, "cli") {
            Ok(JvmProfile::Cli)
        } else if str_eq(s, "server") {
            Ok(JvmProfile::Server)
        } else {
            Err(PackError::InvalidProfile(owned(s)))
        }
    }

    /// The GC flag used by this profile, if any.
    pub fn gc_flag(&self) -> (r: Option<&'static str>)
        ensures
            match profile_gc(*self) {
                Some(g) => r matches Some(x) && x@ == g,
                None => r is None,
            },
    {
        match self {
            JvmProfile::Cli => Some("-XX:+UseSerialGC"),
            JvmProfile::Server => None,
        }
    }

    pub fn name(&self) -> (r: &'static str)
        ensures
            r@ == profile_name(*self),
    {
        match self {
            JvmProfile::Cli => "cli",
            JvmProfile::Server => "server",
        }
    }
}

/// A garbage collector chosen in the VM arguments that differs from the
/// profile's own.
#[derive(Debug)]
pub struct GcConflict {
    pub profile_gc: &'static str,
    pub jvm_args_gc: String,
    pub profile_name: &'static str,
}

/// Whether an argument is one of the known GC flags.
pub fn is_gc_flag(arg: &str) -> (r: bool)
    ensures
        r == known_gc_flags().contains(arg@),
{
    let r = str_eq(arg, "-XX:+UseSerialGC") || str_eq(arg, "-XX:+UseParallelGC") || str_eq(
        arg,
        "-XX:+UseG1GC",
    ) || str_eq(arg, "-XX:+UseZGC") || str_eq(arg, "-XX:+UseShenandoahGC") || str_eq(
        arg,
        "-XX:+UseEpsilonGC",
    );
    proof {
        let g = known_gc_flags();
        if r {
            if arg@ == "-XX:+UseSerialGC"@ {
                assert(g[0] == arg@);
            } else if arg@ == "-XX:+UseParallelGC"@ {
                assert(g[1] == arg@);
            } else if arg@ == "-XX:+UseG1GC"@ {
                assert(g[2] == arg@);
            } else if arg@ == "-XX:+UseZGC"@ {
                assert(g[3] == arg@);
            } else if arg@ == "-XX:+UseShenandoahGC"@ {
                assert(g[4] == arg@);
            } else {
                assert(g[5] == arg@);
            }
        }
    }
    r
}

/// An argument that conflicts with a profile's collector.
pub open spec fn conflicts(gc: Seq<char>, arg: Seq<char>) -> bool {
    known_gc_flags().contains(arg) && arg != gc
}

/// Checks the VM arguments against the profile's collector: the first argument
/// that selects a different known collector is reported.
pub fn detect_gc_conflict(profile: &JvmProfile, jvm_args: &[String]) -> (r: Option<GcConflict>)
    ensures
        match profile_gc(*profile) {
            None => r is None,
            Some(g) => match r {
                None => forall|i: int| 0 <= i < jvm_args@.len() ==> !conflicts(g, #[trigger] jvm_args@[i]@),
                Some(c) => c.profile_gc@ == g && c.profile_name@ == profile_name(*profile)
                    && exists|i: int|
                    0 <= i < jvm_args@.len() && #[trigger] jvm_args@[i]@ == c.jvm_args_gc@
                        && conflicts(g, jvm_args@[i]@) && forall|j: int|
                        0 <= j < i ==> !conflicts(g, #[trigger] jvm_args@[j]@),
            },
        },
{
    let gc = match profile.gc_flag() {
        Some(g) => g,
        None => return None,
    };
    let mut i: usize = 0;
    while i < jvm_args.len()
        invariant
            i <= jvm_args@.len(),
            profile_gc(*profile) == Some(gc@),
            forall|j: int| 0 <= j < i ==> !conflicts(gc@, #[trigger] jvm_args@[j]@),
        decreases jvm_args@.len() - i,
    {
        let arg = &jvm_args[i];
        if is_gc_flag(arg.as_str()) && !str_eq(arg.as_str(), gc) {
            return Some(
                GcConflict { profile_gc: gc, jvm_args_gc: arg.clone(), profile_name: profile.name() },
            );
        }
        i += 1;
    }
    None
}

/// The build tool of a project directory.
#[derive(Debug, Clone, Copy, PartialEq, Eq, Structural)]
pub enum BuildSystem {
    DepsEdn,
    Leiningen,
    Maven,
    Gradle,
}

#[derive(Debug, Clone, Copy, PartialEq, Eq, Structural)]
pub enum TargetOs {
    Linux,
    MacOs,
}

#[derive(Debug, Clone, Copy, PartialEq, Eq, Structural)]
pub enum TargetArch {
    X86_64,
    Aarch64,
}

/// The platform the packed executable runs on.
#[derive(Debug, Clone, Copy, PartialEq, Eq, Structural)]
pub struct Target {
    pub os: TargetOs,
    pub arch: TargetArch,
}

pub open spec fn target_named(s: Seq<char>) -> Option<Target> {
    if s == "linux-x64"@ {
        Some(Target { os: TargetOs::Linux, arch: TargetArch::X86_64 })
    } else if s == "linux-aarch64"@ {
        Some(Target { os: TargetOs::Linux, arch: TargetArch::Aarch64 })
    } else if s == "macos-x64"@ {
        Some(Target { os: TargetOs::MacOs, arch: TargetArch::X86_64 })
    } else if s == "macos-aarch64"@ {
        Some(Target { os: TargetOs::MacOs, arch: TargetArch::Aarch64 })
    } else {
        None
    }
}

pub open spec fn os_key(os: TargetOs) -> Seq<char> {
    match os {
        TargetOs::Linux => "linux"@,
        TargetOs::MacOs => "mac"@,
    }
}

pub open spec fn arch_key(arch: TargetArch) -> Seq<char> {
    match arch {
        TargetArch::X86_64 => "x64"@,
        TargetArch::Aarch64 => "aarch64"@,
    }
}

/// The `{os}-{arch}` form used in cache keys.
pub open spec fn target_key(t: Target) -> Seq<char> {
    os_key(t.os) + "-"@ + arch_key(t.arch)
}

impl Target {
    /// The target of a host described by its OS and architecture names (as
    /// in `std::env::consts`): macOS or else Linux, aarch64 or else x86-64.
    pub fn current(os: &str, arch: &str) -> (r: Target)
        ensures
            r.os == (if os@ == "macos"@ {
                TargetOs::MacOs
            } else {
                TargetOs::Linux
            }),
            r.arch == (if arch@ == "aarch64"@ {
                TargetArch::Aarch64
            } else {
                TargetArch::X86_64
            }),
    {
        let os = if str_eq(os, "macos") {
            TargetOs::MacOs
        } else {
            TargetOs::Linux
        };
        let arch = if str_eq(arch, "aarch64") {
            TargetArch::Aarch64
        } else {
            TargetArch::X86_64
        };
        Target { os, arch }
    }

    pub fn from_str(s: &str) -> (r: Option<Target>)
        ensures
            r == target_named(s@),
    {
        if str_eq(s, "linux-x64") {
            Some(Target { os: TargetOs::Linux, arch: TargetArch::X86_64 })
        } else if str_eq(s, "linux-aarch64") {
            Some(Target { os: TargetOs::Linux, arch: TargetArch::Aarch64 })
        } else if str_eq(s, "macos-x64") {
            Some(Target { os: TargetOs::MacOs, arch: TargetArch::X86_64 })
        } else if str_eq(s, "macos-aarch64") {
            Some(Target { os: TargetOs::MacOs, arch: TargetArch::Aarch64 })
        } else {
            None
        }
    }

    pub fn adoptium_os(&self) -> (r: &'static str)
        ensures
            r@ == os_key(self.os),
    {
        match self.os {
            TargetOs::Linux => "linux",
            TargetOs::MacOs => "mac",
        }
    }

    pub fn adoptium_arch(&self) -> (r: &'static str)
        ensures
            r@ == arch_key(self.arch),
    {
        match self.arch {
            TargetArch::X86_64 => "x64",
            TargetArch::Aarch64 => "aarch64",
        }
    }

    /// The `{os}-{arch}` key of this target.
    pub fn key(&self) -> (r: String)
        ensures
            r@ == target_key(*self),
    {
        let mut r = owned(self.adoptium_os());
        push_str(&mut r, "-");
        push_str(&mut r, self.adoptium_arch());
        r
    }
}

/// Everything one build needs to know.
#[derive(Debug, Clone)]
pub struct BuildConfig {
    pub input: String,
    pub output: String,
    pub java_version: u8,
    pub java_version_explicit: bool,
    pub target: Target,
    pub jvm_args: Vec<String>,
    pub shrink: bool,
    pub profile: JvmProfile,
    pub appcds: bool,
    pub crac: bool,
    pub compact_banner: bool,
    /// Gradle subproject to build (for multi-project builds)
    pub gradle_project: Option<String>,
    /// Build all application subprojects (Gradle multi-project)
    pub build_all: bool,
    /// Manual module override (bypasses module detection)
    pub modules_override: Option<Vec<String>>,
    /// Existing runtime image to reuse
    pub jlink_runtime: Option<String>,
}

/// `a` joined with the relative path `b`.
pub open spec fn join_path(a: Seq<char>, b: Seq<char>) -> Seq<char> {
    if a.len() == 0 || a.last() == '/' {
        a + b
    } else {
        a + "/"@ + b
    }
}

/// Joins a relative path onto a directory.
pub fn join_path_str(a: &str, b: &str) -> (r: String)
    ensures
        r@ == join_path(a@, b@),
{
    let n = a.unicode_len();
    let mut r = owned(a);
    if n > 0 && a.get_char(n - 1) != '/' {
        push_str(&mut r, "/");
    }
    push_str(&mut r, b);
    r
}

/// The cache location below a home directory.
pub fn cache_dir_in(home: Option<String>) -> (r: Result<String, PackError>)
    ensures
        match home {
            Some(h) => r matches Ok(p) && p@ == join_path(h@, ".jbundle/cache"@),
            None => r matches Err(PackError::Io(_)),
        },
{
    match home {
        Some(h) => Ok(join_path_str(h.as_str(), ".jbundle/cache")),
        None => Err(PackError::Io(owned("cannot determine home directory"))),
    }
}

/// Relies on `dirs::home_dir`: the current user's home directory, when one can
/// be found.
#[verifier::external_body]
fn home_dir() -> (r: Option<String>) {
    match dirs::home_dir() {
        Some(p) => Some(p.to_string_lossy().into_owned()),
        None => None,
    }
}

impl BuildConfig {
    /// The per-user cache, `$HOME/.jbundle/cache`.
    pub fn cache_dir() -> (r: Result<String, PackError>)
        ensures
            r matches Ok(p) ==> has_suffix(p@, ".jbundle/cache"@),
    {
        let r = cache_dir_in(home_dir());
        proof {
            if r is Ok {
                let p = r->Ok_0;
                assert(p@.subrange(p@.len() - ".jbundle/cache"@.len(), p@.len() as int) =~= ".jbundle/cache"@);
            }
        }
        r
    }
}

} // verus!
