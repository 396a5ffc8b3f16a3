//! Character-level string helpers shared by the rest of the library, each
//! stated over the `Seq<char>` view of its arguments.
use vstd::prelude::*;
use vstd::string::*;
use vstd::utf8::*;

verus! {

/// `p` is a prefix of `s`.
pub open spec fn has_prefix(s: Seq<char>, p: Seq<char>) -> bool {
    p.len() <= s.len() && s.subrange(0, p.len() as int) == p
}

/// `p` is a suffix of `s`.
pub open spec fn has_suffix(s: Seq<char>, p: Seq<char>) -> bool {
    p.len() <= s.len() && s.subrange(s.len() - p.len(), s.len() as int) == p
}

/// `p` occurs in `s` starting at index `i`.
pub open spec fn occurs_at(s: Seq<char>, p: Seq<char>, i: int) -> bool {
    0 <= i && i + p.len() <= s.len() && s.subrange(i, i + p.len()) == p
}

/// `p` occurs somewhere in `s`.
pub open spec fn has_infix(s: Seq<char>, p: Seq<char>) -> bool {
    exists|i: int| occurs_at(s, p, i)
}

/// The first index at or after `from` where `p` occurs, if any.
pub open spec fn is_first_occurrence(s: Seq<char>, p: Seq<char>, from: int, k: int) -> bool {
    from <= k && occurs_at(s, p, k) && forall|j: int| from <= j < k ==> !occurs_at(s, p, j)
}

/// `s` with every `/` turned into `.`.
pub open spec fn slashes_to_dots(s: Seq<char>) -> Seq<char> {
    s.map_values(|c: char| if c == '/' { '.' } else { c })
}

/// ASCII letters `A`..`Z` mapped to `a`..`z`; every other character kept.
pub open spec fn ascii_lower_char(c: char) -> char {
    if 'A' <= c && c <= 'Z' {
        ((c as u32) + 32) as char
    } else {
        c
    }
}

pub open spec fn ascii_lower(s: Seq<char>) -> Seq<char> {
    s.map_values(|c: char| ascii_lower_char(c))
}

/// The decimal digit for `d < 10`.
pub open spec fn digit_char(d: nat) -> char {
    if d == 0 {
        '0'
    } else if d == 1 {
        '1'
    } else if d == 2 {
        '2'
    } else if d == 3 {
        '3'
    } else if d == 4 {
        '4'
    } else if d == 5 {
        '5'
    } else if d == 6 {
        '6'
    } else if d == 7 {
        '7'
    } else if d == 8 {
        '8'
    } else {
        '9'
    }
}

/// The decimal representation of `n`, without leading zeros.
pub open spec fn dec_str(n: nat) -> Seq<char>
    decreases n,
{
    if n < 10 {
        seq![digit_char(n)]
    } else {
        dec_str(n / 10).push(digit_char(n % 10))
    }
}

/// Number of decimal digits of `n`.
pub open spec fn dec_len(n: nat) -> nat {
    dec_str(n).len()
}

/// Concatenation of `parts` with `sep` between consecutive parts.
pub open spec fn join(parts: Seq<Seq<char>>, sep: Seq<char>) -> Seq<char>
    decreases parts.len(),
{
    if parts.len() == 0 {
        seq![]
    } else if parts.len() == 1 {
        parts[0]
    } else {
        join(parts.drop_last(), sep) + sep + parts.last()
    }
}

/// The views of a sequence of strings.
pub open spec fn views(v: Seq<String>) -> Seq<Seq<char>> {
    v.map_values(|s: String| s@)
}

pub proof fn lemma_dec_str_shape(n: nat)
    ensures
        1 <= dec_str(n).len(),
        is_ascii_chars(dec_str(n)),
        n < 10 ==> dec_str(n).len() == 1,
        n >= 10 ==> dec_str(n).len() == dec_str(n / 10).len() + 1,
    decreases n,
{
    if n >= 10 {
        lemma_dec_str_shape(n / 10);
    }
}

/// More digits never come from a smaller number.
pub proof fn lemma_dec_len_monotone(a: nat, b: nat)
    requires
        a <= b,
    ensures
        dec_len(a) <= dec_len(b),
    decreases b,
{
    lemma_dec_str_shape(a);
    lemma_dec_str_shape(b);
    if a >= 10 {
        lemma_dec_len_monotone(a / 10, b / 10);
    }
}

/// A number below `10^k` has at most `k` digits, here for the `u64` range.
pub proof fn lemma_dec_len_u64(n: nat)
    requires
        n <= u64::MAX,
    ensures
        dec_len(n) <= 20,
{
    reveal_with_fuel(pow10, 21);
    assert(pow10(20) == 100000000000000000000nat);
    lemma_dec_len_bound(n, 20);
}

pub proof fn lemma_dec_len_bound(n: nat, k: nat)
    requires
        1 <= k,
        n < pow10(k),
    ensures
        dec_len(n) <= k,
    decreases k,
{
    lemma_dec_str_shape(n);
    if n >= 10 {
        if k == 1 {
            assert(pow10(0) == 1);
            assert(pow10(1) == 10);
        } else {
            assert(n / 10 < pow10((k - 1) as nat)) by {
                assert(pow10(k) == 10 * pow10((k - 1) as nat));
            }
            lemma_dec_len_bound(n / 10, (k - 1) as nat);
        }
    }
}

pub open spec fn pow10(k: nat) -> nat
    decreases k,
{
    if k == 0 {
        1
    } else {
        10 * pow10((k - 1) as nat)
    }
}

/// UTF-8 length of a concatenation is the sum of the lengths.
pub proof fn lemma_encode_concat(a: Seq<char>, b: Seq<char>)
    ensures
        encode_utf8(a + b) == encode_utf8(a) + encode_utf8(b),
    decreases a.len(),
{
    if a.len() == 0 {
        assert(a + b =~= b);
        assert(encode_utf8(a) =~= seq![]);
        assert(encode_utf8(a) + encode_utf8(b) =~= encode_utf8(b));
    } else {
        assert((a + b).drop_first() =~= a.drop_first() + b);
        lemma_encode_concat(a.drop_first(), b);
        assert((a + b)[0] == a[0]);
        assert(encode_utf8(a + b) =~= encode_utf8(a) + encode_utf8(b));
    }
}

/// The part of a path after its last `/` (all of it when there is none).
pub open spec fn base_name(s: Seq<char>) -> Seq<char>
    decreases s.len(),
{
    if s.len() == 0 {
        s
    } else if s.last() == '/' {
        seq![]
    } else {
        base_name(s.drop_last()).push(s.last())
    }
}

/// Start of the base name of `s`.
pub fn base_name_start(s: &str) -> (r: usize)
    ensures
        r <= s@.len(),
        s@.subrange(r as int, s@.len() as int) == base_name(s@),
{
    let n = s.unicode_len();
    let mut i: usize = 0;
    let mut b: usize = 0;
    while i < n
        invariant
            n == s@.len(),
            b <= i <= n,
            s@.subrange(b as int, i as int) == base_name(s@.subrange(0, i as int)),
        decreases n - i,
    {
        let c = s.get_char(i);
        proof {
            let t = s@.subrange(0, i + 1);
            assert(t.drop_last() =~= s@.subrange(0, i as int));
            assert(t.last() == c);
        }
        if c == '/' {
            b = i + 1;
            assert(s@.subrange(b as int, i + 1) =~= base_name(s@.subrange(0, i + 1)));
        } else {
            assert(s@.subrange(b as int, i + 1) =~= s@.subrange(b as int, i as int).push(c));
        }
        i += 1;
    }
    assert(s@.subrange(0, n as int) =~= s@);
    b
}

/// Equality of two string slices.
pub fn str_eq(a: &str, b: &str) -> (r: bool)
    ensures
        r == (a@ == b@),
{
    let r = a.unicode_len() == b.unicode_len() && starts_with(a, b);
    proof {
        if r {
            assert(a@ =~= a@.subrange(0, b@.len() as int));
        }
        if a@ == b@ {
            assert(a@.subrange(0, b@.len() as int) =~= b@);
        }
    }
    r
}

/// The views of a sequence of string slices.
pub open spec fn str_views(v: Seq<&str>) -> Seq<Seq<char>> {
    v.map_values(|s: &str| s@)
}

proof fn lemma_join_step(parts: Seq<Seq<char>>, sep: Seq<char>, i: int)
    requires
        0 <= i < parts.len(),
    ensures
        join(parts.subrange(0, i + 1), sep) == if i == 0 {
            parts[0]
        } else {
            join(parts.subrange(0, i), sep) + sep + parts[i]
        },
{
    let t = parts.subrange(0, i + 1);
    assert(t.drop_last() =~= parts.subrange(0, i));
    assert(t.last() == parts[i]);
    if i == 0 {
        assert(t.len() == 1);
    }
}

/// Joins string slices with a separator.
pub fn join_strs(parts: &Vec<&str>, sep: &str) -> (r: String)
    ensures
        r@ == join(str_views(parts@), sep@),
{
    let mut out = String::new();
    let mut i: usize = 0;
    while i < parts.len()
        invariant
            i <= parts@.len(),
            out@ == join(str_views(parts@).subrange(0, i as int), sep@),
        decreases parts@.len() - i,
    {
        proof {
            lemma_join_step(str_views(parts@), sep@, i as int);
        }
        if i > 0 {
            push_str(&mut out, sep);
        }
        push_str(&mut out, parts[i]);
        proof {
            if i == 0 {
                assert(out@ =~= seq![] + parts@[0]@);
            }
        }
        i += 1;
    }
    assert(str_views(parts@).subrange(0, parts@.len() as int) =~= str_views(parts@));
    out
}

/// Joins strings with a separator.
pub fn join_strings(parts: &[String], sep: &str) -> (r: String)
    ensures
        r@ == join(views(parts@), sep@),
{
    let mut out = String::new();
    let mut i: usize = 0;
    while i < parts.len()
        invariant
            i <= parts@.len(),
            out@ == join(views(parts@).subrange(0, i as int), sep@),
        decreases parts@.len() - i,
    {
        proof {
            lemma_join_step(views(parts@), sep@, i as int);
        }
        if i > 0 {
            push_str(&mut out, sep);
        }
        push_str(&mut out, parts[i].as_str());
        proof {
            if i == 0 {
                assert(out@ =~= seq![] + parts@[0]@);
            }
        }
        i += 1;
    }
    assert(views(parts@).subrange(0, parts@.len() as int) =~= views(parts@));
    out
}

/// An occurrence implies a first one.
pub proof fn lemma_first_occurrence_exists(s: Seq<char>, p: Seq<char>, i: int)
    requires
        occurs_at(s, p, i),
    ensures
        exists|k: int| is_first_occurrence(s, p, 0, k),
    decreases i,
{
    if exists|j: int| 0 <= j < i && occurs_at(s, p, j) {
        let j = choose|j: int| 0 <= j < i && occurs_at(s, p, j);
        lemma_first_occurrence_exists(s, p, j);
    } else {
        assert(is_first_occurrence(s, p, 0, i));
    }
}

/// Unicode white space, as `char::is_whitespace` defines it.
pub open spec fn is_ws(c: char) -> bool {
    ('\t' <= c && c <= '\r') || c == ' ' || c == '\u{85}' || c == '\u{a0}' || c == '\u{1680}' || (
    '\u{2000}' <= c && c <= '\u{200a}') || c == '\u{2028}' || c == '\u{2029}' || c == '\u{202f}'
        || c == '\u{205f}' || c == '\u{3000}'
}

pub fn is_whitespace(c: char) -> (r: bool)
    ensures
        r == is_ws(c),
{
    ('\t' <= c && c <= '\r') || c == ' ' || c == '\u{85}' || c == '\u{a0}' || c == '\u{1680}' || (
    '\u{2000}' <= c && c <= '\u{200a}') || c == '\u{2028}' || c == '\u{2029}' || c == '\u{202f}'
        || c == '\u{205f}' || c == '\u{3000}'
}

/// `s[a..b]` is `s` without leading and trailing white space.
pub open spec fn is_trim(s: Seq<char>, a: int, b: int) -> bool {
    &&& 0 <= a <= b <= s.len()
    &&& forall|i: int| 0 <= i < a ==> is_ws(#[trigger] s[i])
    &&& forall|i: int| b <= i < s.len() ==> is_ws(#[trigger] s[i])
    &&& a < b ==> !is_ws(s[a]) && !is_ws(s[b - 1])
}

/// `s` without leading and trailing white space.
pub open spec fn trimmed(s: Seq<char>) -> Seq<char> {
    let ab = choose|ab: (int, int)| is_trim(s, ab.0, ab.1);
    s.subrange(ab.0, ab.1)
}

/// Any two trims of a text are the same text.
pub proof fn lemma_trim_unique(s: Seq<char>, a: int, b: int)
    requires
        is_trim(s, a, b),
    ensures
        trimmed(s) == s.subrange(a, b),
{
    assert(is_trim(s, (a, b).0, (a, b).1));
    let ab = choose|ab: (int, int)| is_trim(s, ab.0, ab.1);
    assert(is_trim(s, ab.0, ab.1));
    if a < b && ab.0 < ab.1 {
        assert(ab.0 == a && ab.1 == b) by {
            if ab.0 < a { assert(is_ws(s[ab.0])); }
            if a < ab.0 { assert(is_ws(s[a])); }
            if ab.1 < b { assert(is_ws(s[b - 1])); }
            if b < ab.1 { assert(is_ws(s[ab.1 - 1])); }
        }
    } else if a < b {
        assert(is_ws(s[a]));
    } else if ab.0 < ab.1 {
        if ab.0 < a { assert(is_ws(s[ab.0])); } else { assert(is_ws(s[ab.0])); }
    }
    assert(s.subrange(ab.0, ab.1) =~= s.subrange(a, b));
}

/// Bounds of `s` without leading and trailing white space.
pub fn trim_bounds(s: &str) -> (r: (usize, usize))
    ensures
        is_trim(s@, r.0 as int, r.1 as int),
        trimmed(s@) == s@.subrange(r.0 as int, r.1 as int),
{
    let n = s.unicode_len();
    let mut a: usize = 0;
    while a < n && is_whitespace(s.get_char(a))
        invariant
            n == s@.len(),
            a <= n,
            forall|i: int| 0 <= i < a ==> is_ws(#[trigger] s@[i]),
        decreases n - a,
    {
        a += 1;
    }
    let mut b: usize = n;
    while b > a && is_whitespace(s.get_char(b - 1))
        invariant
            n == s@.len(),
            a <= b <= n,
            forall|i: int| b <= i < n ==> is_ws(#[trigger] s@[i]),
        decreases b,
    {
        b -= 1;
    }
    proof {
        lemma_trim_unique(s@, a as int, b as int);
    }
    (a, b)
}

/// `s` without leading and trailing white space.
pub fn trim(s: &str) -> (r: &str)
    ensures
        r@ == trimmed(s@),
{
    let (a, b) = trim_bounds(s);
    s.substring_char(a, b)
}

/// Appends one character.
/// Relies on `String::push`: the character is added at the end.
#[verifier::external_body]
pub fn push_char(s: &mut String, c: char)
    ensures
        final(s)@ == old(s)@.push(c),
{
    s.push(c)
}

pub fn starts_with(s: &str, p: &str) -> (r: bool)
    ensures
        r == has_prefix(s@, p@),
{
    let n = s.unicode_len();
    let m = p.unicode_len();
    if m > n {
        return false;
    }
    let mut i: usize = 0;
    while i < m
        invariant
            n == s@.len(),
            m == p@.len(),
            m <= n,
            i <= m,
            forall|j: int| 0 <= j < i ==> s@[j] == p@[j],
        decreases m - i,
    {
        if s.get_char(i) != p.get_char(i) {
            assert(s@.subrange(0, m as int)[i as int] != p@[i as int]);
            return false;
        }
        i += 1;
    }
    assert(s@.subrange(0, m as int) =~= p@);
    true
}

/// Whether `p` occurs in `s` at index `k`.
pub fn matches_at(s: &str, p: &str, k: usize) -> (r: bool)
    ensures
        r == occurs_at(s@, p@, k as int),
{
    let n = s.unicode_len();
    let m = p.unicode_len();
    if k > n || m > n - k {
        return false;
    }
    let mut i: usize = 0;
    while i < m
        invariant
            n == s@.len(),
            m == p@.len(),
            k + m <= n,
            i <= m,
            forall|j: int| 0 <= j < i ==> s@[k + j] == p@[j],
        decreases m - i,
    {
        if s.get_char(k + i) != p.get_char(i) {
            assert(s@.subrange(k as int, k + m)[i as int] != p@[i as int]);
            return false;
        }
        i += 1;
    }
    assert(s@.subrange(k as int, k + m) =~= p@);
    true
}

pub fn ends_with(s: &str, p: &str) -> (r: bool)
    ensures
        r == has_suffix(s@, p@),
{
    let n = s.unicode_len();
    let m = p.unicode_len();
    if m > n {
        return false;
    }
    matches_at(s, p, n - m)
}

/// The first index at or after `from` where `p` occurs, or -1.
pub open spec fn find_spec(s: Seq<char>, p: Seq<char>, from: int) -> int {
    if exists|k: int| is_first_occurrence(s, p, from, k) {
        choose|k: int| is_first_occurrence(s, p, from, k)
    } else {
        -1
    }
}

proof fn lemma_find_spec(s: Seq<char>, p: Seq<char>, from: int, k: int)
    requires
        is_first_occurrence(s, p, from, k),
    ensures
        find_spec(s, p, from) == k,
{
    let j = choose|j: int| is_first_occurrence(s, p, from, j);
    if j < k {
        assert(!occurs_at(s, p, j));
    } else if k < j {
        assert(!occurs_at(s, p, k));
    }
}

/// First occurrence of `p` at or after `from`.
pub fn find_from(s: &str, p: &str, from: usize) -> (r: Option<usize>)
    ensures
        match r {
            Some(k) => is_first_occurrence(s@, p@, from as int, k as int),
            None => forall|j: int| from <= j ==> !occurs_at(s@, p@, j),
        },
        find_spec(s@, p@, from as int) == match r {
            Some(k) => k as int,
            None => -1,
        },
{
    let r = find_from_scan(s, p, from);
    proof {
        match r {
            Some(k) => lemma_find_spec(s@, p@, from as int, k as int),
            None => {
                if exists|k: int| is_first_occurrence(s@, p@, from as int, k) {
                    let k = choose|k: int| is_first_occurrence(s@, p@, from as int, k);
                    assert(occurs_at(s@, p@, k));
                }
            },
        }
    }
    r
}

fn find_from_scan(s: &str, p: &str, from: usize) -> (r: Option<usize>)
    ensures
        match r {
            Some(k) => is_first_occurrence(s@, p@, from as int, k as int),
            None => forall|j: int| from <= j ==> !occurs_at(s@, p@, j),
        },
{
    let n = s.unicode_len();
    let m = p.unicode_len();
    if m > n {
        return None;
    }
    if from > n - m {
        return None;
    }
    let mut k: usize = from;
    loop
        invariant
            n == s@.len(),
            m == p@.len(),
            m <= n,
            from <= k <= n - m,
            forall|j: int| from <= j < k ==> !occurs_at(s@, p@, j),
        decreases n - k,
    {
        if matches_at(s, p, k) {
            return Some(k);
        }
        if k == n - m {
            return None;
        }
        k += 1;
    }
}

pub fn contains(s: &str, p: &str) -> (r: bool)
    ensures
        r == has_infix(s@, p@),
{
    match find_from(s, p, 0) {
        Some(k) => true,
        None => {
            assert forall|j: int| !occurs_at(s@, p@, j) by {
                if j < 0 {
                }
            }
            false
        },
    }
}

/// The decimal digit character for `d < 10`.
pub fn digit(d: u64) -> (c: char)
    requires
        d < 10,
    ensures
        c == digit_char(d as nat),
{
    if d == 0 {
        '0'
    } else if d == 1 {
        '1'
    } else if d == 2 {
        '2'
    } else if d == 3 {
        '3'
    } else if d == 4 {
        '4'
    } else if d == 5 {
        '5'
    } else if d == 6 {
        '6'
    } else if d == 7 {
        '7'
    } else if d == 8 {
        '8'
    } else {
        '9'
    }
}

/// Appends the decimal representation of `n`.
pub fn push_decimal(out: &mut String, n: u64)
    ensures
        final(out)@ == old(out)@ + dec_str(n as nat),
    decreases n,
{
    if n >= 10 {
        push_decimal(out, n / 10);
    }
    push_char(out, digit(n % 10));
    assert(final(out)@ =~= old(out)@ + dec_str(n as nat));
}

/// The decimal representation of `n` as a new string.
pub fn decimal(n: u64) -> (r: String)
    ensures
        r@ == dec_str(n as nat),
{
    let mut out = String::new();
    push_decimal(&mut out, n);
    assert(out@ =~= dec_str(n as nat));
    out
}

/// Appends every character of `s` with `/` turned into `.`.
pub fn push_dotted(out: &mut String, s: &str, start: usize, end: usize)
    requires
        start <= end <= s@.len(),
    ensures
        final(out)@ == old(out)@ + slashes_to_dots(s@.subrange(start as int, end as int)),
{
    let mut i: usize = start;
    while i < end
        invariant
            start <= i <= end <= s@.len(),
            out@ == old(out)@ + slashes_to_dots(s@.subrange(start as int, i as int)),
        decreases end - i,
    {
        let c = s.get_char(i);
        if c == '/' {
            push_char(out, '.');
        } else {
            push_char(out, c);
        }
        assert(s@.subrange(start as int, i + 1) =~= s@.subrange(start as int, i as int).push(c));
        i += 1;
        assert(out@ =~= old(out)@ + slashes_to_dots(s@.subrange(start as int, i as int)));
    }
}

/// `s` with ASCII upper-case letters lowered.
pub fn to_ascii_lower(s: &str) -> (r: String)
    ensures
        r@ == ascii_lower(s@),
{
    let n = s.unicode_len();
    let mut out = String::new();
    let mut i: usize = 0;
    while i < n
        invariant
            n == s@.len(),
            i <= n,
            out@ == ascii_lower(s@.subrange(0, i as int)),
        decreases n - i,
    {
        let c = s.get_char(i);
        let lc = if 'A' <= c && c <= 'Z' {
            char_from_u32_ascii((c as u32) + 32)
        } else {
            c
        };
        push_char(&mut out, lc);
        assert(s@.subrange(0, i + 1) =~= s@.subrange(0, i as int).push(c));
        i += 1;
        assert(out@ =~= ascii_lower(s@.subrange(0, i as int)));
    }
    assert(s@.subrange(0, n as int) =~= s@);
    out
}

/// The character with code `u` for ASCII `u`.
fn char_from_u32_ascii(u: u32) -> (c: char)
    requires
        u < 128,
    ensures
        c == u as char,
{
    u as u8 as char
}

/// Copies a string slice into a new string.
pub fn owned(s: &str) -> (r: String)
    ensures
        r@ == s@,
{
    String::from_str(s)
}

/// Appends a string slice.
pub fn push_str(out: &mut String, s: &str)
    ensures
        final(out)@ == old(out)@ + s@,
{
    out.append(s)
}

} // verus!
