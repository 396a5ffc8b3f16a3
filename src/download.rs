//! Decisions of the runtime downloader: how an HTTP attempt is classified,
//! when to retry and after how long, and when a download may be used.
use vstd::prelude::*;
use crate::error::PackError;
use crate::hash::{hex_of, sha256_hex, sha256_of};
use crate::text::{owned, push_str, str_eq};

verus! {

/// Attempts made before a download is given up.
pub const MAX_ATTEMPTS: u32 = 3;

/// Seconds to wait on a rate-limit answer without a usable `Retry-After`.
pub const DEFAULT_RETRY_AFTER_SECS: u64 = 5;

/// How one download attempt ended.
#[derive(Debug, Clone)]
pub enum AttemptOutcome {
    /// The body was written completely.
    Completed,
    /// Connection, timeout or server error: worth another attempt.
    Retryable(String),
    /// Rate limited; the server asked to wait this many seconds.
    RetryAfter(u64, String),
    /// Any other failure: retrying will not help.
    Permanent(String),
}

/// What the downloader does next.
#[derive(Debug, Clone)]
pub enum DownloadStep {
    /// Check the written file against the advertised checksum.
    Verify,
    /// Wait this many seconds, then make the next attempt.
    Sleep(u64),
    /// Give up with this error.
    Fail(PackError),
}

/// How an HTTP status answers a download request.
#[derive(Debug, Clone, Copy, PartialEq, Eq, Structural)]
pub enum StatusClass {
    Success,
    RateLimited,
    ServerError,
    ClientError,
}

pub open spec fn status_class(code: u16) -> StatusClass {
    if 200 <= code <= 299 {
        StatusClass::Success
    } else if code == 429 {
        StatusClass::RateLimited
    } else if 500 <= code <= 599 {
        StatusClass::ServerError
    } else {
        StatusClass::ClientError
    }
}

/// Classifies an HTTP status code.
pub fn classify_status(code: u16) -> (r: StatusClass)
    ensures
        r == status_class(code),
{
    if 200 <= code && code <= 299 {
        StatusClass::Success
    } else if code == 429 {
        StatusClass::RateLimited
    } else if 500 <= code && code <= 599 {
        StatusClass::ServerError
    } else {
        StatusClass::ClientError
    }
}

/// Whether a transport failure is worth another attempt: timeouts, connection
/// and request failures, server errors and rate limits are; other statuses are
/// not; failures without a status are.
pub open spec fn transport_retryable(is_timeout: bool, is_connect: bool, is_request: bool, status: Option<u16>) -> bool {
    if is_timeout || is_connect || is_request {
        true
    } else {
        match status {
            Some(c) => status_class(c) == StatusClass::ServerError || c == 429,
            None => true,
        }
    }
}

pub fn is_transport_retryable(is_timeout: bool, is_connect: bool, is_request: bool, status: Option<u16>) -> (r: bool)
    ensures
        r == transport_retryable(is_timeout, is_connect, is_request, status),
{
    if is_timeout || is_connect || is_request {
        true
    } else {
        match status {
            Some(c) => classify_status(c) == StatusClass::ServerError || c == 429,
            None => true,
        }
    }
}

/// The value of a decimal text of ASCII digits, with an optional leading `+`.
pub open spec fn digits_value(s: Seq<char>) -> int
    decreases s.len(),
{
    if s.len() == 0 {
        0
    } else {
        digits_value(s.drop_last()) * 10 + (s.last() as int - '0' as int)
    }
}

pub open spec fn all_digits(s: Seq<char>) -> bool {
    forall|i: int| 0 <= i < s.len() ==> '0' <= #[trigger] s[i] && s[i] <= '9'
}

/// The number a `Retry-After` value gives, when it is a decimal `u64`.
pub open spec fn parse_u64(s: Seq<char>) -> Option<u64> {
    let d = if s.len() > 0 && s[0] == '+' {
        s.drop_first()
    } else {
        s
    };
    if d.len() > 0 && all_digits(d) && digits_value(d) <= u64::MAX {
        Some(digits_value(d) as u64)
    } else {
        None
    }
}

proof fn lemma_digits_value_nonneg(s: Seq<char>)
    requires
        all_digits(s),
    ensures
        digits_value(s) >= 0,
    decreases s.len(),
{
    if s.len() > 0 {
        assert(all_digits(s.drop_last()));
        lemma_digits_value_nonneg(s.drop_last());
    }
}

/// Parses an unsigned decimal number.
pub fn parse_decimal_u64(s: &str) -> (r: Option<u64>)
    ensures
        r == parse_u64(s@),
{
    let n = s.unicode_len();
    let mut i: usize = 0;
    if n > 0 && s.get_char(0) == '+' {
        i = 1;
    }
    let start = i;
    let ghost d = s@.subrange(start as int, n as int);
    proof {
        if n > 0 && s@[0] == '+' {
            assert(d =~= s@.drop_first());
        } else {
            assert(d =~= s@);
        }
    }
    if start == n {
        return None;
    }
    let mut v: u64 = 0;
    while i < n
        invariant
            start <= i <= n,
            n == s@.len(),
            d == s@.subrange(start as int, n as int),
            d == (if s@.len() > 0 && s@[0] == '+' {
                s@.drop_first()
            } else {
                s@
            }),
            all_digits(s@.subrange(start as int, i as int)),
            v as int == digits_value(s@.subrange(start as int, i as int)),
        decreases n - i,
    {
        let c = s.get_char(i);
        let ghost t = s@.subrange(start as int, i + 1);
        proof {
            assert(t.drop_last() =~= s@.subrange(start as int, i as int));
        }
        if c < '0' || c > '9' {
            proof {
                assert(d[i - start] == c);
                assert(!all_digits(d));
                assert(parse_u64(s@) is None);
            }
            return None;
        }
        let dv = (c as u32 - '0' as u32) as u64;
        if v > (u64::MAX - dv) / 10 {
            proof {
                assert(all_digits(t));
                lemma_digits_value_nonneg(t);
                assert(digits_value(t) > u64::MAX) by (nonlinear_arith)
                    requires
                        v > (u64::MAX - dv) / 10,
                        digits_value(t) == v * 10 + dv,
                        dv <= 9,
                ;
                assert(d.subrange(0, (i + 1 - start) as int) =~= t);
                lemma_digits_prefix_le(d, (i + 1 - start) as int);
                assert(parse_u64(s@) is None);
            }
            return None;
        }
        v = v * 10 + dv;
        i += 1;
    }
    assert(s@.subrange(start as int, n as int) =~= d);
    Some(v)
}

/// Digits that continue a prefix never make it smaller.
proof fn lemma_digits_prefix_le(s: Seq<char>, k: int)
    requires
        0 <= k <= s.len(),
        all_digits(s.subrange(0, k)),
    ensures
        all_digits(s) ==> digits_value(s.subrange(0, k)) <= digits_value(s),
    decreases s.len() - k,
{
    if k < s.len() && all_digits(s) {
        assert(all_digits(s.subrange(0, k + 1)));
        lemma_digits_prefix_le(s, k + 1);
        let t = s.subrange(0, k + 1);
        assert(t.drop_last() =~= s.subrange(0, k));
        lemma_digits_value_nonneg(s.subrange(0, k));
    } else if k == s.len() {
        assert(s.subrange(0, k) =~= s);
    }
}

/// Seconds to wait on a rate-limit answer: the `Retry-After` header when it
/// is a number, five otherwise.
pub fn retry_after_secs(header: Option<&str>) -> (r: u64)
    ensures
        r == match header {
            Some(h) => match parse_u64(h@) {
                Some(v) => v,
                None => DEFAULT_RETRY_AFTER_SECS,
            },
            None => DEFAULT_RETRY_AFTER_SECS,
        },
{
    match header {
        Some(h) => match parse_decimal_u64(h) {
            Some(v) => v,
            None => DEFAULT_RETRY_AFTER_SECS,
        },
        None => DEFAULT_RETRY_AFTER_SECS,
    }
}

pub open spec fn pow2(k: nat) -> nat
    decreases k,
{
    if k == 0 {
        1
    } else {
        2 * pow2((k - 1) as nat)
    }
}

/// Attempt `n` (from 1) that failed in a retryable way.
pub open spec fn gives_up(attempt: u32) -> bool {
    attempt >= MAX_ATTEMPTS
}

/// How long to wait after attempt `attempt` (counted from 1): `2^(attempt-1)`
/// seconds after a retryable failure, what a rate limit asked after one, and
/// no wait once the attempts are used up or when retrying cannot help.
pub open spec fn sleep_after(attempt: u32, outcome: AttemptOutcome) -> Option<u64> {
    match outcome {
        AttemptOutcome::Retryable(_) => if gives_up(attempt) {
            None
        } else {
            Some(pow2((attempt - 1) as nat) as u64)
        },
        AttemptOutcome::RetryAfter(secs, _) => if gives_up(attempt) {
            None
        } else {
            Some(secs)
        },
        _ => None,
    }
}

/// The message a download fails with after attempt `attempt`, if it fails
/// there: at once on a permanent error, and when the attempts are used up.
pub open spec fn failure_after(attempt: u32, outcome: AttemptOutcome) -> Option<Seq<char>> {
    match outcome {
        AttemptOutcome::Permanent(m) => Some(m@),
        AttemptOutcome::Retryable(m) => if gives_up(attempt) {
            Some("download failed after 3 attempts: "@ + m@)
        } else {
            None
        },
        AttemptOutcome::RetryAfter(_, m) => if gives_up(attempt) {
            Some("download failed after 3 attempts: "@ + m@)
        } else {
            None
        },
        AttemptOutcome::Completed => None,
    }
}

/// The error that ends a download whose attempts were used up.
fn exhausted(msg: &str) -> (r: PackError)
    ensures
        r matches PackError::JdkDownload(m) && m@ == "download failed after 3 attempts: "@ + msg@,
{
    let mut m = owned("download failed after 3 attempts: ");
    push_str(&mut m, msg);
    PackError::JdkDownload(m)
}

/// Decides what follows attempt `attempt` of a download.
pub fn next_step(attempt: u32, outcome: AttemptOutcome) -> (r: DownloadStep)
    requires
        1 <= attempt <= MAX_ATTEMPTS,
    ensures
        (r is Verify) == (outcome is Completed),
        match r {
            DownloadStep::Verify => sleep_after(attempt, outcome) is None && failure_after(attempt, outcome) is None,
            DownloadStep::Sleep(secs) => sleep_after(attempt, outcome) == Some(secs)
                && failure_after(attempt, outcome) is None,
            DownloadStep::Fail(e) => sleep_after(attempt, outcome) is None && (e matches PackError::JdkDownload(m)
                && failure_after(attempt, outcome) == Some(m@)),
        },
{
    match outcome {
        AttemptOutcome::Completed => DownloadStep::Verify,
        AttemptOutcome::Permanent(m) => DownloadStep::Fail(PackError::JdkDownload(m)),
        AttemptOutcome::Retryable(m) => {
            if attempt >= MAX_ATTEMPTS {
                DownloadStep::Fail(exhausted(m.as_str()))
            } else {
                let delay: u64 = if attempt == 1 {
                    1
                } else {
                    2
                };
                assert(pow2(0) == 1 && pow2(1) == 2);
                DownloadStep::Sleep(delay)
            }
        },
        AttemptOutcome::RetryAfter(secs, m) => {
            if attempt >= MAX_ATTEMPTS {
                DownloadStep::Fail(exhausted(m.as_str()))
            } else {
                DownloadStep::Sleep(secs)
            }
        },
    }
}

/// Accepts a downloaded file only when its SHA-256 checksum is the advertised
/// one; a mismatch carries both values.
pub fn verify_download(actual: &str, expected: &str) -> (r: Result<(), PackError>)
    ensures
        r is Ok <==> actual@ == expected@,
        r matches Err(e) ==> e matches PackError::ChecksumMismatch { expected: x, actual: y } && x@
            == expected@ && y@ == actual@,
{
    if str_eq(actual, expected) {
        Ok(())
    } else {
        Err(PackError::ChecksumMismatch { expected: owned(expected), actual: owned(actual) })
    }
}

/// A file already in the cache is reused only when its checksum matches.
pub fn cached_download_usable(exists: bool, actual: Option<&str>, expected: &str) -> (r: bool)
    ensures
        r == (exists && match actual {
            Some(a) => a@ == expected@,
            None => false,
        }),
{
    match actual {
        Some(a) => exists && str_eq(a, expected),
        None => false,
    }
}

/// Checks downloaded bytes against the advertised SHA-256 checksum: a file
/// is handed out only when the checksum of its content is the expected one.
pub fn accept_download(data: &[u8], expected: &str) -> (r: Result<(), PackError>)
    ensures
        r is Ok <==> hex_of(sha256_of(data@)) == expected@,
        r matches Err(e) ==> e matches PackError::ChecksumMismatch { expected: x, actual: y } && x@
            == expected@ && y@ == hex_of(sha256_of(data@)),
{
    let actual = sha256_hex(data);
    verify_download(actual.as_str(), expected)
}

} // verus!
