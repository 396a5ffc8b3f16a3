//! The launcher stub: a POSIX shell program that extracts the payload regions
//! into a content-addressed cache and starts the application.
use vstd::prelude::*;
use vstd::utf8::*;
use vstd::string::*;
use crate::config::{profile_flags, JvmProfile};
use crate::text::{
    dec_len, dec_str, decimal, find_from, has_infix, is_first_occurrence, join, lemma_first_occurrence_exists, join_strings,
    join_strs, lemma_dec_len_bound, lemma_dec_len_monotone, lemma_dec_len_u64, lemma_dec_str_shape, pow10,
    lemma_encode_concat, occurs_at, owned, push_decimal, push_str, str_views, views,
};

verus! {

/// What the stub records and how it launches the application.
pub struct StubParams<'a> {
    pub runtime_hash: &'a str,
    pub runtime_size: u64,
    pub app_hash: &'a str,
    pub app_size: u64,
    pub crac_hash: Option<&'a str>,
    pub crac_size: u64,
    pub profile: &'a JvmProfile,
    pub jvm_args: &'a [String],
    pub appcds: bool,
    pub java_version: u8,
    pub compact_banner: bool,
}

/// Start of the stub, up to the runtime hash.
pub const STUB_HEAD: &'static str = r#"#!/bin/sh
set -e
CACHE="${HOME}/.jbundle/cache"
RT_HASH=""#;

pub const STUB_RT_SIZE_TAG: &'static str = r#""    RT_SIZE="#;

pub const STUB_APP_HASH_TAG: &'static str = r#"
APP_HASH=""#;

pub const STUB_APP_SIZE_TAG: &'static str = r#""   APP_SIZE="#;

pub const STUB_CRAC_SIZE_TAG: &'static str = r#"
CRAC_SIZE="#;

pub const STUB_CRAC_HASH_TAG: &'static str = r#"       CRAC_HASH=""#;

pub const STUB_IDS_END: &'static str = r#""

"#;

/// The decorative banner.
pub const STUB_BANNER_FULL: &'static str = r#"cat >&2 <<'BANNER'
   _ _                    _ _
  (_) |__  _   _ _ __   __| | | ___
  | | '_ \| | | | '_ \ / _` | |/ _ \
  | | |_) | |_| | | | | (_| | |  __/
 _/ |_.__/ \__,_|_| |_|\__,_|_|\___|
|__/
BANNER
"#;

/// The compact banner.
pub const STUB_BANNER_COMPACT: &'static str = r#"cat >&2 <<'BANNER'
jbundle
BANNER
"#;

/// The size placeholder and the extraction of the runtime and the application.
pub const STUB_EXTRACT: &'static str = r#"
STUB_SIZE=__STUB_SIZE__

# Extract runtime (only if not cached)
RT_DIR="$CACHE/rt-$RT_HASH"
if [ ! -d "$RT_DIR/bin" ]; then
    mkdir -p "$RT_DIR"
    echo "Extracting runtime (first run)..." >&2
    tail -c +$((STUB_SIZE + 1)) "$0" | head -c "$RT_SIZE" | tar xzf - -C "$RT_DIR"
fi

# Extract app.jar (decompress gzip, only if not cached)
APP_DIR="$CACHE/app-$APP_HASH"
if [ ! -f "$APP_DIR/app.jar" ]; then
    mkdir -p "$APP_DIR"
    tail -c +$((STUB_SIZE + RT_SIZE + 1)) "$0" | head -c "$APP_SIZE" | gzip -d > "$APP_DIR/app.jar"
fi
"#;

/// Shared class data archived automatically on first run.
pub const STUB_CDS_ON: &'static str = r#"
# AppCDS: auto-create shared archive on first run (JDK 19+)
CDS_FILE="$APP_DIR/app.jsa"
CDS_FLAG="-XX:+AutoCreateSharedArchive -XX:SharedArchiveFile=$CDS_FILE""#;

pub const STUB_CDS_OFF: &'static str = r#"
CDS_FLAG="""#;

/// Checkpoint restore and the start of the launch command.
pub const STUB_LAUNCH: &'static str = r#"

# CRaC restore (Linux only)
if [ "$CRAC_SIZE" -gt 0 ] 2>/dev/null && [ "$(uname)" = "Linux" ]; then
    CRAC_DIR="$CACHE/crac-$CRAC_HASH"
    if [ ! -d "$CRAC_DIR/cr" ]; then
        mkdir -p "$CRAC_DIR"
        tail -c +$((STUB_SIZE + RT_SIZE + APP_SIZE + 1)) "$0" | head -c "$CRAC_SIZE" | tar xzf - -C "$CRAC_DIR"
    fi
    exec "$RT_DIR/bin/java" -XX:CRaCRestoreFrom="$CRAC_DIR/cr" "$@" 2>/dev/null || true
fi

# Launch with profile flags + AppCDS + user args
exec "$RT_DIR/bin/java""#;

/// End of the launch command and the payload marker.
pub const STUB_TAIL: &'static str = r#" $CDS_FLAG -jar "$APP_DIR/app.jar" "$@"
exit 0
# --- PAYLOAD BELOW ---
"#;

/// Placeholder for the stub's own length in bytes.
pub const STUB_SIZE_PLACEHOLDER: &'static str = "__STUB_SIZE__";

pub open spec fn crac_hash_text<'a>(p: StubParams<'a>) -> Seq<char> {
    match p.crac_hash {
        Some(h) => h@,
        None => seq![],
    }
}

pub open spec fn banner_text<'a>(p: StubParams<'a>) -> Seq<char> {
    if p.compact_banner {
        STUB_BANNER_COMPACT@
    } else {
        STUB_BANNER_FULL@
    }
}

/// Shared-archive flags only when enabled and the runtime is 19 or newer.
pub open spec fn cds_text<'a>(p: StubParams<'a>) -> Seq<char> {
    if p.appcds && p.java_version >= 19 {
        STUB_CDS_ON@
    } else {
        STUB_CDS_OFF@
    }
}

/// Profile flags then user VM arguments, each preceded by a space.
pub open spec fn launch_args_text<'a>(p: StubParams<'a>) -> Seq<char> {
    let pf = join(profile_flags(*p.profile), " "@);
    let ja = if p.jvm_args@.len() == 0 {
        seq![]
    } else {
        " "@ + join(views(p.jvm_args@), " "@)
    };
    if pf.len() == 0 {
        ja
    } else if ja.len() == 0 {
        " "@ + pf
    } else {
        " "@ + pf + ja
    }
}

/// The stub text, with the size placeholder still in it.
pub open spec fn stub_text<'a>(p: StubParams<'a>) -> Seq<char> {
    STUB_HEAD@ + p.runtime_hash@ + STUB_RT_SIZE_TAG@ + dec_str(p.runtime_size as nat)
        + STUB_APP_HASH_TAG@ + p.app_hash@ + STUB_APP_SIZE_TAG@ + dec_str(p.app_size as nat)
        + STUB_CRAC_SIZE_TAG@ + dec_str(p.crac_size as nat) + STUB_CRAC_HASH_TAG@
        + crac_hash_text(p) + STUB_IDS_END@ + banner_text(p) + STUB_EXTRACT@ + cds_text(p)
        + STUB_LAUNCH@ + launch_args_text(p) + STUB_TAIL@
}

/// Renders the stub for the given parameters.
pub fn generate(params: &StubParams) -> (r: String)
    ensures
        r@ == stub_text(*params),
{
    let flags = params.profile.flags();
    let profile_flags = join_strs(&flags, " ");
    let mut args = String::new();
    if params.jvm_args.len() > 0 {
        push_str(&mut args, " ");
        let joined = join_strings(params.jvm_args, " ");
        push_str(&mut args, joined.as_str());
    }
    let mut launch = String::new();
    if profile_flags.as_str().unicode_len() == 0 {
        push_str(&mut launch, args.as_str());
    } else {
        push_str(&mut launch, " ");
        push_str(&mut launch, profile_flags.as_str());
        push_str(&mut launch, args.as_str());
    }
    proof {
        assert(args@.len() == 0 ==> launch@ =~= launch_args_text(*params));
        assert(launch@ =~= launch_args_text(*params));
    }
    let mut out = owned(STUB_HEAD);
    push_str(&mut out, params.runtime_hash);
    push_str(&mut out, STUB_RT_SIZE_TAG);
    push_decimal(&mut out, params.runtime_size);
    push_str(&mut out, STUB_APP_HASH_TAG);
    push_str(&mut out, params.app_hash);
    push_str(&mut out, STUB_APP_SIZE_TAG);
    push_decimal(&mut out, params.app_size);
    push_str(&mut out, STUB_CRAC_SIZE_TAG);
    push_decimal(&mut out, params.crac_size);
    push_str(&mut out, STUB_CRAC_HASH_TAG);
    match params.crac_hash {
        Some(h) => push_str(&mut out, h),
        None => {},
    }
    push_str(&mut out, STUB_IDS_END);
    if params.compact_banner {
        push_str(&mut out, STUB_BANNER_COMPACT);
    } else {
        push_str(&mut out, STUB_BANNER_FULL);
    }
    push_str(&mut out, STUB_EXTRACT);
    if params.appcds && params.java_version >= 19 {
        push_str(&mut out, STUB_CDS_ON);
    } else {
        push_str(&mut out, STUB_CDS_OFF);
    }
    push_str(&mut out, STUB_LAUNCH);
    push_str(&mut out, launch.as_str());
    push_str(&mut out, STUB_TAIL);
    assert(out@ =~= stub_text(*params));
    out
}

/// `n` is the least length above `base` that equals `base` plus its own
/// number of decimal digits.
pub open spec fn is_self_size(base: nat, n: nat) -> bool {
    base < n && n == base + dec_len(n) && forall|m: nat| base < m < n ==> m != base + dec_len(m)
}

pub open spec fn self_size(base: nat) -> nat {
    choose|n: nat| is_self_size(base, n)
}

/// Byte length of a text.
pub open spec fn byte_len(s: Seq<char>) -> nat {
    encode_utf8(s).len()
}

/// The stub with its first size placeholder replaced by the stub's final
/// length in bytes; unchanged when there is no placeholder.
pub open spec fn finalized(stub: Seq<char>) -> Seq<char> {
    let ph = STUB_SIZE_PLACEHOLDER@;
    if has_infix(stub, ph) {
        let k = choose|k: int| is_first_occurrence(stub, ph, 0, k);
        let size = self_size((byte_len(stub) - byte_len(ph)) as nat);
        stub.subrange(0, k) + dec_str(size) + stub.subrange(k + ph.len(), stub.len() as int)
    } else {
        stub
    }
}

/// The length the finalized stub declares for itself.
pub open spec fn declared_stub_size(stub: Seq<char>) -> nat {
    self_size((byte_len(stub) - byte_len(STUB_SIZE_PLACEHOLDER@)) as nat)
}

proof fn lemma_self_size_unique(base: nat, a: nat, b: nat)
    requires
        is_self_size(base, a),
        is_self_size(base, b),
    ensures
        a == b,
{
    if a < b {
        assert(a != base + dec_len(a));
    } else if b < a {
        assert(b != base + dec_len(b));
    }
}

proof fn lemma_pow10_grows(j: nat)
    ensures
        pow10(j) >= j + 1,
    decreases j,
{
    if j > 0 {
        lemma_pow10_grows((j - 1) as nat);
    }
}

proof fn lemma_below_pow10(n: nat)
    ensures
        n < pow10(dec_len(n)),
    decreases n,
{
    lemma_dec_str_shape(n);
    assert(pow10(0) == 1);
    assert(pow10(1) == 10);
    if n >= 10 {
        lemma_below_pow10(n / 10);
        let p = pow10(dec_len(n / 10));
        assert(pow10(dec_len(n)) == 10 * p);
        assert(n < 10 * p) by (nonlinear_arith)
            requires
                n / 10 < p,
        ;
    }
}

proof fn lemma_self_size_from(base: nat, d: nat, k: nat)
    requires
        1 <= d <= k,
        dec_len(base + d) >= d,
        dec_len(base + k) <= k,
        forall|m: nat| base < m < base + d ==> m != base + dec_len(m),
    ensures
        exists|n: nat| #[trigger] is_self_size(base, n),
    decreases k - d,
{
    if dec_len(base + d) == d {
        assert(is_self_size(base, base + d));
    } else {
        lemma_dec_len_monotone(base + d, base + d + 1);
        assert forall|m: nat| base < m < base + d + 1 implies m != base + dec_len(m) by {
            if m == base + d {
            }
        }
        lemma_self_size_from(base, d + 1, k);
    }
}

/// Every length has a self-consistent stub size above it.
pub proof fn lemma_self_size_exists(base: nat)
    ensures
        exists|n: nat| #[trigger] is_self_size(base, n),
        is_self_size(base, self_size(base)),
{
    let k = dec_len(base) + 1;
    lemma_below_pow10(base);
    lemma_pow10_grows((k - 1) as nat);
    assert(pow10(k) == 10 * pow10((k - 1) as nat));
    assert(base + k < pow10(k));
    lemma_dec_len_bound(base + k, k);
    lemma_dec_str_shape(base + 1);
    lemma_self_size_from(base, 1, k);
}

/// Finds the least `n > base` with `n == base + digits(n)`.
fn find_self_size(base: usize) -> (n: usize)
    requires
        base + 20 <= usize::MAX,
    ensures
        is_self_size(base as nat, n as nat),
{
    let mut d: usize = 1;
    proof {
        lemma_dec_str_shape((base + 1) as nat);
    }
    loop
        invariant
            1 <= d <= 20,
            base + 20 <= usize::MAX,
            dec_len((base + d) as nat) >= d,
            forall|m: nat| base < m < base + d ==> m != base + dec_len(m),
        decreases 20 - d,
    {
        let candidate = base + d;
        let digits = decimal(candidate as u64);
        let len = digits.as_str().unicode_len();
        if len == d {
            return candidate;
        }
        proof {
            lemma_dec_len_u64(candidate as nat);
            lemma_dec_len_monotone(candidate as nat, (candidate + 1) as nat);
            if d == 20 {
                assert(false);
            }
        }
        d += 1;
    }
}

/// Replaces the size placeholder with the stub's own final length in bytes:
/// the least length that stays the same once its digits are written in.
pub fn finalize_stub(stub: &str) -> (r: String)
    requires
        byte_len(stub@) + 20 <= usize::MAX,
    ensures
        r@ == finalized(stub@),
        has_infix(stub@, STUB_SIZE_PLACEHOLDER@) ==> byte_len(r@) == declared_stub_size(stub@)
            && is_self_size((byte_len(stub@) - byte_len(STUB_SIZE_PLACEHOLDER@)) as nat, declared_stub_size(stub@)),
{
    let r = finalize_text(stub);
    proof {
        if has_infix(stub@, STUB_SIZE_PLACEHOLDER@) {
            lemma_finalized_length(stub@);
            lemma_self_size_exists((byte_len(stub@) - byte_len(STUB_SIZE_PLACEHOLDER@)) as nat);
        }
    }
    r
}

fn finalize_text(stub: &str) -> (r: String)
    requires
        byte_len(stub@) + 20 <= usize::MAX,
    ensures
        r@ == finalized(stub@),
{
    let ph = STUB_SIZE_PLACEHOLDER;
    match find_from(stub, ph, 0) {
        None => {
            assert(!has_infix(stub@, ph@));
            owned(stub)
        },
        Some(k) => {
            let n = stub.unicode_len();
            let m = ph.unicode_len();
            let pre = stub.substring_char(0, k);
            let post = stub.substring_char(k + m, n);
            proof {
                assert(stub@ =~= pre@ + ph@ + post@);
                lemma_encode_concat(pre@ + ph@, post@);
                lemma_encode_concat(pre@, ph@);
            }
            let base = stub.len() - ph.len();
            let size = find_self_size(base);
            let mut out = owned(pre);
            push_decimal(&mut out, size as u64);
            push_str(&mut out, post);
            proof {
                let k0 = choose|j: int| is_first_occurrence(stub@, ph@, 0, j);
                assert(is_first_occurrence(stub@, ph@, 0, k as int));
                if k0 < k {
                    assert(!occurs_at(stub@, ph@, k0));
                } else if k < k0 {
                    assert(!occurs_at(stub@, ph@, k as int));
                }
                let s0 = self_size(base as nat);
                assert(is_self_size(base as nat, size as nat));
                lemma_self_size_unique(base as nat, s0, size as nat);
                assert(out@ =~= finalized(stub@));
            }
            out
        },
    }
}

/// A finalized stub is exactly as long, in bytes, as the size written into it.
pub proof fn lemma_finalized_length(stub: Seq<char>)
    requires
        has_infix(stub, STUB_SIZE_PLACEHOLDER@),
    ensures
        byte_len(finalized(stub)) == declared_stub_size(stub),
{
    lemma_self_size_exists((byte_len(stub) - byte_len(STUB_SIZE_PLACEHOLDER@)) as nat);
    let ph = STUB_SIZE_PLACEHOLDER@;
    let i = choose|i: int| occurs_at(stub, ph, i);
    lemma_first_occurrence_exists(stub, ph, i);
    let k = choose|k: int| is_first_occurrence(stub, ph, 0, k);
    let pre = stub.subrange(0, k);
    let post = stub.subrange(k + ph.len(), stub.len() as int);
    let size = declared_stub_size(stub);
    assert(stub =~= pre + ph + post);
    lemma_encode_concat(pre + ph, post);
    lemma_encode_concat(pre, ph);
    lemma_encode_concat(pre + dec_str(size), post);
    lemma_encode_concat(pre, dec_str(size));
    lemma_dec_str_shape(size);
    is_ascii_chars_encode_utf8(dec_str(size));
}

} // verus!
