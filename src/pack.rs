//! The layout of a packed executable: the stub followed by the runtime
//! archive, the compressed application and the optional checkpoint.
use vstd::prelude::*;
use crate::config::JvmProfile;
use crate::stub::{declared_stub_size, finalized, lemma_finalized_length, STUB_SIZE_PLACEHOLDER};
use crate::text::{has_infix, owned};

verus! {

/// What the packer is asked to combine.
#[derive(Debug, Clone)]
pub struct PackOptions {
    pub runtime_dir: String,
    pub jar_path: String,
    pub crac_path: Option<String>,
    pub output: String,
    pub jvm_args: Vec<String>,
    pub profile: JvmProfile,
    pub appcds: bool,
    pub java_version: u8,
    pub compact_banner: bool,
}

/// Sizes of the four regions of a packed executable, in file order.
#[derive(Debug, Clone, Copy, PartialEq, Eq, Structural)]
pub struct PackLayout {
    pub stub_size: u64,
    pub runtime_size: u64,
    pub app_size: u64,
    pub crac_size: u64,
}

impl PackLayout {
    pub open spec fn total_spec(self) -> nat {
        (self.stub_size + self.runtime_size + self.app_size + self.crac_size) as nat
    }

    /// The layout of the given region sizes, when the whole file fits a `u64`.
    pub fn new(stub_size: u64, runtime_size: u64, app_size: u64, crac_size: u64) -> (r: Option<PackLayout>)
        ensures
            match r {
                Some(l) => l == (PackLayout { stub_size, runtime_size, app_size, crac_size })
                    && l.total_spec() <= u64::MAX,
                None => stub_size + runtime_size + app_size + crac_size > u64::MAX,
            },
    {
        let a = stub_size.checked_add(runtime_size);
        match a {
            None => None,
            Some(a) => match a.checked_add(app_size) {
                None => None,
                Some(b) => match b.checked_add(crac_size) {
                    None => None,
                    Some(_) => Some(PackLayout { stub_size, runtime_size, app_size, crac_size }),
                },
            },
        }
    }

    /// Offset of the runtime archive: the first payload byte.
    pub fn runtime_offset(&self) -> (r: u64)
        ensures
            r == self.stub_size,
    {
        self.stub_size
    }

    pub fn app_offset(&self) -> (r: u64)
        requires
            self.total_spec() <= u64::MAX,
        ensures
            r == self.stub_size + self.runtime_size,
    {
        self.stub_size + self.runtime_size
    }

    pub fn crac_offset(&self) -> (r: u64)
        requires
            self.total_spec() <= u64::MAX,
        ensures
            r == self.stub_size + self.runtime_size + self.app_size,
    {
        self.stub_size + self.runtime_size + self.app_size
    }

    /// Length of the whole executable.
    pub fn total(&self) -> (r: u64)
        requires
            self.total_spec() <= u64::MAX,
        ensures
            r == self.total_spec(),
    {
        self.stub_size + self.runtime_size + self.app_size + self.crac_size
    }
}

/// The bytes of a packed executable: the finalized stub, then the runtime,
/// application and checkpoint regions.
pub open spec fn packed_file(stub: Seq<char>, rt: Seq<u8>, app: Seq<u8>, crac: Seq<u8>) -> Seq<u8> {
    vstd::utf8::encode_utf8(finalized(stub)) + rt + app + crac
}

/// The size a stub declares for itself is the number of bytes before the first
/// payload byte, and the file is exactly as long as the four regions together;
/// each region is found at its offset.
pub proof fn lemma_pack_layout(stub: Seq<char>, rt: Seq<u8>, app: Seq<u8>, crac: Seq<u8>)
    requires
        has_infix(stub, STUB_SIZE_PLACEHOLDER@),
    ensures
        ({
            let f = packed_file(stub, rt, app, crac);
            let s = declared_stub_size(stub) as int;
            &&& f.len() == s + rt.len() + app.len() + crac.len()
            &&& f.subrange(0, s) == vstd::utf8::encode_utf8(finalized(stub))
            &&& f.subrange(s, s + rt.len()) == rt
            &&& f.subrange(s + rt.len(), s + rt.len() + app.len()) == app
            &&& f.subrange(s + rt.len() + app.len(), f.len() as int) == crac
        }),
{
    lemma_finalized_length(stub);
    let f = packed_file(stub, rt, app, crac);
    let e = vstd::utf8::encode_utf8(finalized(stub));
    let s = declared_stub_size(stub) as int;
    assert(f.subrange(0, s) =~= e);
    assert(f.subrange(s, s + rt.len()) =~= rt);
    assert(f.subrange(s + rt.len(), s + rt.len() + app.len()) =~= app);
    assert(f.subrange(s + rt.len() + app.len(), f.len() as int) =~= crac);
}

/// The message for an output path that names a directory.
pub fn output_is_directory_error(output: &str) -> (r: crate::error::PackError)
    ensures
        r matches crate::error::PackError::BuildFailed(m) && m@ == "output path '"@ + output@
            + "' is a directory. Specify a file path like './dist/app' instead of './dist'"@,
{
    let mut m = owned("output path '");
    crate::text::push_str(&mut m, output);
    crate::text::push_str(&mut m, "' is a directory. Specify a file path like './dist/app' instead of './dist'");
    crate::error::PackError::BuildFailed(m)
}

} // verus!
