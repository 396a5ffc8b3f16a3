//! Build options from the command line and the project's configuration
//! file, merged into one build configuration: the command line wins.
use vstd::prelude::*;
use crate::config::{profile_named, target_named, BuildConfig, JvmProfile, Target};
use crate::error::PackError;
use crate::gradle::copy_strings;
use crate::pipeline::split_commas;
use crate::text::{owned, trim, trimmed, views};

verus! {

/// Language version used when none is configured.
pub const DEFAULT_JAVA_VERSION: u8 = 21;

/// Options a project's configuration file may set.
#[derive(Debug, Default)]
pub struct ProjectConfig {
    pub java_version: Option<u8>,
    pub target: Option<String>,
    pub shrink: Option<bool>,
    pub jvm_args: Option<Vec<String>>,
    pub profile: Option<String>,
    pub appcds: Option<bool>,
    pub crac: Option<bool>,
    pub compact_banner: Option<bool>,
    pub gradle_project: Option<String>,
    pub modules: Option<Vec<String>>,
    pub jlink_runtime: Option<String>,
}

/// Options given on the command line.
#[derive(Debug)]
pub struct BuildOptions {
    pub input: String,
    pub output: String,
    pub java_version: Option<u8>,
    pub target: Option<String>,
    pub jvm_args: Vec<String>,
    pub shrink: bool,
    pub profile: Option<String>,
    pub no_appcds: bool,
    pub crac: bool,
    pub gradle_project: Option<String>,
    pub all: bool,
    pub modules: Option<String>,
    pub jlink_runtime: Option<String>,
    pub compact_banner: bool,
}

/// Each text trimmed.
pub open spec fn trimmed_all(s: Seq<Seq<char>>) -> Seq<Seq<char>> {
    s.map_values(|p: Seq<char>| trimmed(p))
}

pub open spec fn opt_view(o: Option<String>) -> Option<Seq<char>> {
    match o {
        Some(s) => Some(s@),
        None => None,
    }
}

pub open spec fn opt_list_view(o: Option<Vec<String>>) -> Option<Seq<Seq<char>>> {
    match o {
        Some(v) => Some(views(v@)),
        None => None,
    }
}

/// The first of two optional values that is present.
pub open spec fn first_of<T>(a: Option<T>, b: Option<T>) -> Option<T> {
    match a {
        Some(x) => Some(x),
        None => b,
    }
}

/// The target text to use, if any: the command line's, else the file's.
pub open spec fn target_text(cli: BuildOptions, file: Option<ProjectConfig>) -> Option<Seq<char>> {
    first_of(opt_view(cli.target), match file {
        Some(c) => opt_view(c.target),
        None => None,
    })
}

pub open spec fn profile_text(cli: BuildOptions, file: Option<ProjectConfig>) -> Seq<char> {
    match first_of(opt_view(cli.profile), match file {
        Some(c) => opt_view(c.profile),
        None => None,
    }) {
        Some(p) => p,
        None => "server"@,
    }
}

/// The switches a configuration file may set.
pub enum FileFlag {
    Shrink,
    Appcds,
    Crac,
    CompactBanner,
}

pub open spec fn file_bool(file: Option<ProjectConfig>, flag: FileFlag) -> Option<bool> {
    match file {
        Some(c) => match flag {
            FileFlag::Shrink => c.shrink,
            FileFlag::Appcds => c.appcds,
            FileFlag::Crac => c.crac,
            FileFlag::CompactBanner => c.compact_banner,
        },
        None => None,
    }
}

/// The target named is unknown.
pub open spec fn bad_target(cli: BuildOptions, file: Option<ProjectConfig>) -> bool {
    match target_text(cli, file) {
        Some(t) => target_named(t) is None,
        None => false,
    }
}

/// Whether merging fails: on an unknown target, or else an unknown profile.
pub open spec fn merge_fails(cli: BuildOptions, file: Option<ProjectConfig>) -> bool {
    bad_target(cli, file) || profile_named(profile_text(cli, file)) is None
}

/// The configuration the options describe.
pub open spec fn merged(r: BuildConfig, cli: BuildOptions, file: Option<ProjectConfig>, host: Target) -> bool {
    let fjava = match file {
        Some(c) => c.java_version,
        None => None,
    };
    &&& r.input@ == cli.input@
    &&& r.output@ == cli.output@
    &&& r.target == match target_text(cli, file) {
        Some(t) => target_named(t).unwrap(),
        None => host,
    }
    &&& r.java_version_explicit == (cli.java_version is Some || fjava is Some)
    &&& r.java_version == match first_of(cli.java_version, fjava) {
        Some(v) => v,
        None => DEFAULT_JAVA_VERSION,
    }
    &&& views(r.jvm_args@) == if cli.jvm_args@.len() > 0 {
        views(cli.jvm_args@)
    } else {
        match file {
            Some(c) => match c.jvm_args {
                Some(a) => views(a@),
                None => seq![],
            },
            None => seq![],
        }
    }
    &&& r.shrink == (cli.shrink || file_bool(file, FileFlag::Shrink) == Some(true))
    &&& Some(r.profile) == profile_named(profile_text(cli, file))
    &&& r.appcds == (!cli.no_appcds && file_bool(file, FileFlag::Appcds) != Some(false))
    &&& r.crac == (cli.crac || file_bool(file, FileFlag::Crac) == Some(true))
    &&& r.compact_banner == (cli.compact_banner || file_bool(file, FileFlag::CompactBanner) == Some(true))
    &&& opt_view(r.gradle_project) == first_of(opt_view(cli.gradle_project), match file {
        Some(c) => opt_view(c.gradle_project),
        None => None,
    })
    &&& r.build_all == cli.all
    &&& opt_list_view(r.modules_override) == match cli.modules {
        Some(m) => Some(trimmed_all(split_commas(m@))),
        None => match file {
            Some(c) => opt_list_view(c.modules),
            None => None,
        },
    }
    &&& opt_view(r.jlink_runtime) == first_of(opt_view(cli.jlink_runtime), match file {
        Some(c) => opt_view(c.jlink_runtime),
        None => None,
    })
}

fn copy_opt(o: &Option<String>) -> (r: Option<String>)
    ensures
        opt_view(r) == opt_view(*o),
{
    match o {
        Some(s) => Some(s.clone()),
        None => None,
    }
}

fn first_opt(a: &Option<String>, b: Option<&Option<String>>) -> (r: Option<String>)
    ensures
        opt_view(r) == first_of(opt_view(*a), match b {
            Some(x) => opt_view(*x),
            None => None,
        }),
{
    match a {
        Some(s) => Some(s.clone()),
        None => match b {
            Some(x) => copy_opt(x),
            None => None,
        },
    }
}

/// Splits a comma-separated module list and trims each module.
pub fn parse_module_list(list: &str) -> (r: Vec<String>)
    ensures
        views(r@) == trimmed_all(split_commas(list@)),
{
    let parts = crate::pipeline::split_modules(list);
    let mut out: Vec<String> = Vec::new();
    let mut i: usize = 0;
    while i < parts.len()
        invariant
            i <= parts@.len(),
            views(parts@) == split_commas(list@),
            views(out@) == trimmed_all(views(parts@).subrange(0, i as int)),
        decreases parts@.len() - i,
    {
        let t = owned(trim(parts[i].as_str()));
        let ghost before = views(out@);
        out.push(t);
        assert(views(out@) =~= before.push(t@));
        assert(views(out@) =~= trimmed_all(views(parts@).subrange(0, i + 1)));
        i += 1;
    }
    assert(views(parts@).subrange(0, parts@.len() as int) =~= views(parts@));
    out
}

/// Merges the command line with the configuration file; the host target is
/// used when neither names one.
pub fn resolve_build_config(cli: &BuildOptions, file: &Option<ProjectConfig>, host: Target) -> (r: Result<BuildConfig, PackError>)
    ensures
        match r {
            Ok(c) => !merge_fails(*cli, *file) && merged(c, *cli, *file, host),
            Err(e) => merge_fails(*cli, *file) && if bad_target(*cli, *file) {
                e matches PackError::InvalidTarget(m) && Some(m@) == target_text(*cli, *file)
            } else {
                e matches PackError::InvalidProfile(m) && m@ == profile_text(*cli, *file)
            },
        },
{
    let fc: Option<&ProjectConfig> = match file {
        Some(c) => Some(c),
        None => None,
    };
    let target_str = first_opt(&cli.target, match fc {
        Some(c) => Some(&c.target),
        None => None,
    });
    let target = match target_str {
        Some(t) => match Target::from_str(t.as_str()) {
            Some(x) => x,
            None => return Err(PackError::InvalidTarget(t)),
        },
        None => host,
    };
    let fjava: Option<u8> = match fc {
        Some(c) => c.java_version,
        None => None,
    };
    let java_version_explicit = cli.java_version.is_some() || fjava.is_some();
    let java_version = match cli.java_version {
        Some(v) => v,
        None => match fjava {
            Some(v) => v,
            None => DEFAULT_JAVA_VERSION,
        },
    };
    let jvm_args = if cli.jvm_args.len() > 0 {
        copy_strings(&cli.jvm_args)
    } else {
        match fc {
            Some(c) => match &c.jvm_args {
                Some(a) => copy_strings(a),
                None => Vec::new(),
            },
            None => Vec::new(),
        }
    };
    let profile_str = match first_opt(&cli.profile, match fc {
        Some(c) => Some(&c.profile),
        None => None,
    }) {
        Some(p) => p,
        None => owned("server"),
    };
    let profile = match JvmProfile::from_str(profile_str.as_str()) {
        Ok(p) => p,
        Err(e) => return Err(e),
    };
    let (fshrink, fappcds, fcrac, fbanner) = match fc {
        Some(c) => (c.shrink, c.appcds, c.crac, c.compact_banner),
        None => (None, None, None, None),
    };
    let shrink = cli.shrink || fshrink == Some(true);
    let appcds = !cli.no_appcds && fappcds != Some(false);
    let crac = cli.crac || fcrac == Some(true);
    let compact_banner = cli.compact_banner || fbanner == Some(true);
    let gradle_project = first_opt(&cli.gradle_project, match fc {
        Some(c) => Some(&c.gradle_project),
        None => None,
    });
    let modules_override = match &cli.modules {
        Some(m) => Some(parse_module_list(m.as_str())),
        None => match fc {
            Some(c) => match &c.modules {
                Some(v) => Some(copy_strings(v)),
                None => None,
            },
            None => None,
        },
    };
    let jlink_runtime = first_opt(&cli.jlink_runtime, match fc {
        Some(c) => Some(&c.jlink_runtime),
        None => None,
    });
    let r = BuildConfig {
            input: cli.input.clone(),
            output: cli.output.clone(),
            java_version,
            java_version_explicit,
            target,
            jvm_args,
            shrink,
            profile,
            appcds,
            crac,
            compact_banner,
            gradle_project,
            build_all: cli.all,
            modules_override,
            jlink_runtime,
        };
    // The merge, field by field.
    proof {
        assert(r.input@ == cli.input@);
        assert(r.target == match target_text(*cli, *file) {
            Some(t) => target_named(t).unwrap(),
            None => host,
        });
        assert(Some(r.profile) == profile_named(profile_text(*cli, *file)));
        assert(r.shrink == (cli.shrink || file_bool(*file, FileFlag::Shrink) == Some(true)));
        assert(r.appcds == (!cli.no_appcds && file_bool(*file, FileFlag::Appcds) != Some(false)));
        assert(opt_view(r.gradle_project) == first_of(opt_view(cli.gradle_project), match *file {
            Some(c) => opt_view(c.gradle_project),
            None => None,
        }));
        assert(!merge_fails(*cli, *file));
        assert(r.output@ == cli.output@);
        assert(r.java_version_explicit == (cli.java_version is Some || (match *file { Some(c) => c.java_version, None => None }) is Some));
        assert(r.crac == (cli.crac || file_bool(*file, FileFlag::Crac) == Some(true)));
        assert(r.compact_banner == (cli.compact_banner || file_bool(*file, FileFlag::CompactBanner) == Some(true)));
        assert(views(r.jvm_args@) == if cli.jvm_args@.len() > 0 {
            views(cli.jvm_args@)
        } else {
            match *file {
                Some(c) => match c.jvm_args {
                    Some(a) => views(a@),
                    None => seq![],
                },
                None => seq![],
            }
        });
        assert(opt_list_view(r.modules_override) == match cli.modules {
            Some(m) => Some(trimmed_all(split_commas(m@))),
            None => match *file {
                Some(c) => opt_list_view(c.modules),
                None => None,
            },
        });
        assert(opt_view(r.jlink_runtime) == first_of(opt_view(cli.jlink_runtime), match *file {
            Some(c) => opt_view(c.jlink_runtime),
            None => None,
        }));
    }
    Ok(r)
}

} // verus!
