//! Content hashes: SHA-256 digests written as lowercase hexadecimal.
use vstd::prelude::*;
use crate::text::{push_char, str_eq};

verus! {

/// The SHA-256 digest of some bytes.
pub uninterp spec fn sha256_of(data: Seq<u8>) -> Seq<u8>;

/// Relies on `sha2::Sha256::digest`: the SHA-256 digest of the data, 32 bytes.
#[verifier::external_body]
fn sha256(data: &[u8]) -> (r: Vec<u8>)
    ensures
        r@ == sha256_of(data@),
        r@.len() == 32,
{
    <sha2::Sha256 as sha2::Digest>::digest(data).to_vec()
}

/// Lowercase hexadecimal digit for `d < 16`.
pub open spec fn hex_digit(d: nat) -> char {
    if d < 10 {
        ((d + 48) as u32) as char
    } else {
        ((d + 87) as u32) as char
    }
}

/// Two lowercase hexadecimal digits per byte, high nibble first.
pub open spec fn hex_of(bytes: Seq<u8>) -> Seq<char>
    decreases bytes.len(),
{
    if bytes.len() == 0 {
        seq![]
    } else {
        hex_of(bytes.drop_last()) + seq![
            hex_digit((bytes.last() / 16) as nat),
            hex_digit((bytes.last() % 16) as nat),
        ]
    }
}

pub open spec fn is_lower_hex(c: char) -> bool {
    ('0' <= c && c <= '9') || ('a' <= c && c <= 'f')
}

fn hex_char(d: u8) -> (c: char)
    requires
        d < 16,
    ensures
        c == hex_digit(d as nat),
{
    if d < 10 {
        (d + 48) as char
    } else {
        (d + 87) as char
    }
}

/// Hexadecimal form of some bytes.
pub fn hex_lower(bytes: &[u8]) -> (r: String)
    ensures
        r@ == hex_of(bytes@),
{
    let mut out = String::new();
    let mut i: usize = 0;
    while i < bytes.len()
        invariant
            i <= bytes@.len(),
            out@ == hex_of(bytes@.subrange(0, i as int)),
        decreases bytes@.len() - i,
    {
        let b = bytes[i];
        push_char(&mut out, hex_char(b / 16));
        push_char(&mut out, hex_char(b % 16));
        proof {
            let t = bytes@.subrange(0, i + 1);
            assert(t.drop_last() =~= bytes@.subrange(0, i as int));
            assert(t.last() == b);
        }
        i += 1;
        assert(out@ =~= hex_of(bytes@.subrange(0, i as int)));
    }
    assert(bytes@.subrange(0, bytes@.len() as int) =~= bytes@);
    out
}

/// The full SHA-256 checksum of some bytes, as 64 hexadecimal digits.
pub fn sha256_hex(data: &[u8]) -> (r: String)
    ensures
        r@ == hex_of(sha256_of(data@)),
{
    let d = sha256(data);
    hex_lower(d.as_slice())
}

/// The content hash carried by a digest: its first eight bytes in hexadecimal.
pub fn digest_prefix_hex(digest: &[u8]) -> (r: String)
    requires
        digest@.len() >= 8,
    ensures
        r@ == hex_of(digest@.subrange(0, 8)),
{
    let mut first: Vec<u8> = Vec::new();
    let mut i: usize = 0;
    while i < 8
        invariant
            i <= 8 <= digest@.len(),
            first@ == digest@.subrange(0, i as int),
        decreases 8 - i,
    {
        first.push(digest[i]);
        assert(first@ =~= digest@.subrange(0, i + 1));
        i += 1;
    }
    hex_lower(first.as_slice())
}

/// The content hash of some bytes: 16 hexadecimal digits from the first eight
/// bytes of their SHA-256 digest.
pub fn content_hash(data: &[u8]) -> (r: String)
    ensures
        r@ == hex_of(sha256_of(data@).subrange(0, 8)),
        r@.len() == 16,
        forall|i: int| 0 <= i < 16 ==> is_lower_hex(#[trigger] r@[i]),
        sha256_of(data@).len() == 32,
{
    let d = sha256(data);
    let r = digest_prefix_hex(d.as_slice());
    proof {
        lemma_hex_shape(sha256_of(data@).subrange(0, 8));
    }
    r
}

/// Whether a computed checksum is the advertised one.
pub fn checksum_matches(actual: &str, expected: &str) -> (r: bool)
    ensures
        r == (actual@ == expected@),
{
    str_eq(actual, expected)
}

proof fn lemma_hex_digit(d: nat)
    requires
        d < 16,
    ensures
        is_lower_hex(hex_digit(d)),
        forall|e: nat| e < 16 && hex_digit(e) == hex_digit(d) ==> e == d,
{
}

/// Hex text has two characters per byte, each a lowercase hex digit.
pub proof fn lemma_hex_shape(bytes: Seq<u8>)
    ensures
        hex_of(bytes).len() == 2 * bytes.len(),
        forall|i: int| 0 <= i < hex_of(bytes).len() ==> is_lower_hex(#[trigger] hex_of(bytes)[i]),
    decreases bytes.len(),
{
    if bytes.len() > 0 {
        lemma_hex_shape(bytes.drop_last());
        lemma_hex_digit((bytes.last() / 16) as nat);
        lemma_hex_digit((bytes.last() % 16) as nat);
        let h = hex_of(bytes);
        let p = hex_of(bytes.drop_last());
        assert forall|i: int| 0 <= i < h.len() implies is_lower_hex(#[trigger] h[i]) by {
            if i < p.len() {
                assert(h[i] == p[i]);
            }
        }
    }
}

/// Equal hex text comes only from equal bytes.
pub proof fn lemma_hex_injective(a: Seq<u8>, b: Seq<u8>)
    requires
        hex_of(a) == hex_of(b),
    ensures
        a == b,
    decreases a.len(),
{
    lemma_hex_shape(a);
    lemma_hex_shape(b);
    if a.len() > 0 {
        let ha = hex_of(a);
        let pa = hex_of(a.drop_last());
        let pb = hex_of(b.drop_last());
        assert(ha.subrange(0, pa.len() as int) =~= pa);
        assert(ha.subrange(0, pb.len() as int) =~= pb);
        lemma_hex_injective(a.drop_last(), b.drop_last());
        let x = a.last();
        let y = b.last();
        assert(ha[ha.len() - 2] == hex_digit((x / 16) as nat));
        assert(ha[ha.len() - 2] == hex_digit((y / 16) as nat));
        assert(ha[ha.len() - 1] == hex_digit((x % 16) as nat));
        assert(ha[ha.len() - 1] == hex_digit((y % 16) as nat));
        lemma_hex_digit((x / 16) as nat);
        lemma_hex_digit((x % 16) as nat);
        assert(x / 16 == y / 16);
        assert(x % 16 == y % 16);
        assert(x == y) by (nonlinear_arith)
            requires
                x / 16 == y / 16,
                x % 16 == y % 16,
        ;
        assert(a =~= a.drop_last().push(x));
        assert(b =~= b.drop_last().push(y));
    }
}

/// Content hashes are 16 lowercase hexadecimal characters, and two contents
/// get the same hash exactly when the first eight bytes of their SHA-256
/// digests agree; in particular equal digests give equal hashes.
pub proof fn lemma_content_hash(x: Seq<u8>, y: Seq<u8>)
    requires
        sha256_of(x).len() == 32,
        sha256_of(y).len() == 32,
    ensures
        hex_of(sha256_of(x).subrange(0, 8)).len() == 16,
        forall|i: int| 0 <= i < 16 ==> is_lower_hex(#[trigger] hex_of(sha256_of(x).subrange(0, 8))[i]),
        (hex_of(sha256_of(x).subrange(0, 8)) == hex_of(sha256_of(y).subrange(0, 8))) == (sha256_of(
            x,
        ).subrange(0, 8) == sha256_of(y).subrange(0, 8)),
        sha256_of(x) == sha256_of(y) ==> hex_of(sha256_of(x).subrange(0, 8)) == hex_of(
            sha256_of(y).subrange(0, 8),
        ),
{
    lemma_hex_shape(sha256_of(x).subrange(0, 8));
    if hex_of(sha256_of(x).subrange(0, 8)) == hex_of(sha256_of(y).subrange(0, 8)) {
        lemma_hex_injective(sha256_of(x).subrange(0, 8), sha256_of(y).subrange(0, 8));
    }
}

} // verus!
