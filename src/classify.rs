//! Classification of archive entry names.
use vstd::prelude::*;
use crate::text::{ends_with, has_prefix, has_suffix, owned, push_dotted, slashes_to_dots, starts_with};

verus! {

/// The kind of an archive entry, decided by its name.
#[derive(Debug, Clone, Copy, PartialEq, Eq, Structural)]
pub enum EntryCategory {
    Class,
    Resource,
    NativeLib,
    Metadata,
    ClojureSource,
    JavaSource,
}

pub open spec fn is_clojure_source_name(n: Seq<char>) -> bool {
    has_suffix(n, ".clj"@) || has_suffix(n, ".cljc"@) || has_suffix(n, ".cljs"@)
}

pub open spec fn is_native_name(n: Seq<char>) -> bool {
    has_suffix(n, ".so"@) || has_suffix(n, ".dylib"@) || has_suffix(n, ".dll"@) || has_suffix(
        n,
        ".jnilib"@,
    )
}

/// The category of a name: the first rule that matches, in priority order.
pub open spec fn category_of(n: Seq<char>) -> EntryCategory {
    if has_suffix(n, ".class"@) {
        EntryCategory::Class
    } else if is_clojure_source_name(n) {
        EntryCategory::ClojureSource
    } else if has_suffix(n, ".java"@) {
        EntryCategory::JavaSource
    } else if is_native_name(n) {
        EntryCategory::NativeLib
    } else if has_prefix(n, "META-INF/"@) {
        EntryCategory::Metadata
    } else {
        EntryCategory::Resource
    }
}

/// Number of `/` in `s`.
pub open spec fn slash_count(s: Seq<char>) -> nat
    decreases s.len(),
{
    if s.len() == 0 {
        0
    } else {
        slash_count(s.drop_last()) + if s.last() == '/' {
            1nat
        } else {
            0nat
        }
    }
}

/// The part of `s` before its `d`-th slash (`d >= 1`), or all of `s` when it
/// has fewer slashes.
pub open spec fn before_slash(s: Seq<char>, d: nat) -> Seq<char>
    decreases s.len(),
{
    if s.len() == 0 {
        s
    } else if s[0] == '/' && d <= 1 {
        seq![]
    } else if s[0] == '/' {
        seq!['/'] + before_slash(s.drop_first(), (d - 1) as nat)
    } else {
        seq![s[0]] + before_slash(s.drop_first(), d)
    }
}

/// The package of an entry: its first (up to three) directory segments joined
/// with `.`, or `(root)` for a name without a slash.
pub open spec fn package_of(n: Seq<char>) -> Seq<char> {
    let k = slash_count(n);
    let depth: nat = if k < 3 {
        k
    } else {
        3
    };
    if depth == 0 {
        "(root)"@
    } else {
        slashes_to_dots(before_slash(n, depth))
    }
}

/// The namespace of a Clojure namespace-loader class, if the name is one.
pub open spec fn clojure_ns_of(n: Seq<char>) -> Option<Seq<char>> {
    if has_suffix(n, "__init.class"@) {
        Some(slashes_to_dots(n.subrange(0, n.len() - "__init.class"@.len())))
    } else {
        None
    }
}

/// Every name falls under exactly the category whose rule matches first.
pub proof fn lemma_classify_total(n: Seq<char>)
    ensures
        (category_of(n) == EntryCategory::Class) == has_suffix(n, ".class"@),
        (category_of(n) == EntryCategory::ClojureSource) == (!has_suffix(n, ".class"@)
            && is_clojure_source_name(n)),
        (category_of(n) == EntryCategory::JavaSource) == (!has_suffix(n, ".class"@)
            && !is_clojure_source_name(n) && has_suffix(n, ".java"@)),
        (category_of(n) == EntryCategory::NativeLib) == (!has_suffix(n, ".class"@)
            && !is_clojure_source_name(n) && !has_suffix(n, ".java"@) && is_native_name(n)),
        (category_of(n) == EntryCategory::Metadata) == (!has_suffix(n, ".class"@)
            && !is_clojure_source_name(n) && !has_suffix(n, ".java"@) && !is_native_name(n)
            && has_prefix(n, "META-INF/"@)),
        (category_of(n) == EntryCategory::Resource) == (!has_suffix(n, ".class"@)
            && !is_clojure_source_name(n) && !has_suffix(n, ".java"@) && !is_native_name(n)
            && !has_prefix(n, "META-INF/"@)),
{
}

/// Category of an entry name.
pub fn classify_entry(name: &str) -> (r: EntryCategory)
    ensures
        r == category_of(name@),
{
    if ends_with(name, ".class") {
        return EntryCategory::Class;
    }
    if ends_with(name, ".clj") || ends_with(name, ".cljc") || ends_with(name, ".cljs") {
        return EntryCategory::ClojureSource;
    }
    if ends_with(name, ".java") {
        return EntryCategory::JavaSource;
    }
    if ends_with(name, ".so") || ends_with(name, ".dylib") || ends_with(name, ".dll") || ends_with(
        name,
        ".jnilib",
    ) {
        return EntryCategory::NativeLib;
    }
    if starts_with(name, "META-INF/") {
        return EntryCategory::Metadata;
    }
    EntryCategory::Resource
}

proof fn lemma_slash_count_push(s: Seq<char>, c: char)
    ensures
        slash_count(s.push(c)) == slash_count(s) + if c == '/' {
            1nat
        } else {
            0nat
        },
{
    assert(s.push(c).drop_last() =~= s);
}

proof fn lemma_before_slash_step(s: Seq<char>, i: int, d: nat)
    requires
        0 <= i < s.len(),
    ensures
        before_slash(s.subrange(i, s.len() as int), d) == if s[i] == '/' && d <= 1 {
            seq![]
        } else if s[i] == '/' {
            seq!['/'] + before_slash(s.subrange(i + 1, s.len() as int), (d - 1) as nat)
        } else {
            seq![s[i]] + before_slash(s.subrange(i + 1, s.len() as int), d)
        },
{
    let t = s.subrange(i, s.len() as int);
    assert(t.drop_first() =~= s.subrange(i + 1, s.len() as int));
    assert(t[0] == s[i]);
}

/// Number of slashes in a name, by a forward scan.
fn count_slashes(name: &str) -> (r: usize)
    ensures
        r == slash_count(name@),
{
    let n = name.unicode_len();
    let mut i: usize = 0;
    let mut cnt: usize = 0;
    while i < n
        invariant
            n == name@.len(),
            i <= n,
            cnt <= i,
            cnt == slash_count(name@.subrange(0, i as int)),
        decreases n - i,
    {
        let c = name.get_char(i);
        proof {
            assert(name@.subrange(0, i + 1) =~= name@.subrange(0, i as int).push(c));
            lemma_slash_count_push(name@.subrange(0, i as int), c);
        }
        if c == '/' {
            cnt += 1;
        }
        i += 1;
    }
    assert(name@.subrange(0, n as int) =~= name@);
    cnt
}

/// Package of an entry for grouping in size reports.
pub fn extract_package(name: &str) -> (r: String)
    ensures
        r@ == package_of(name@),
{
    let k = count_slashes(name);
    let depth: usize = if k < 3 {
        k
    } else {
        3
    };
    if depth == 0 {
        return owned("(root)");
    }
    let n = name.unicode_len();
    // Position of the depth-th slash.
    let mut i: usize = 0;
    let mut seen: usize = 0;
    proof {
        assert(name@.subrange(0, n as int) =~= name@);
        assert(name@.subrange(0, 0) + name@ =~= name@);
    }
    while i < n
        invariant
            n == name@.len(),
            1 <= depth <= 3,
            i <= n,
            seen < depth,
            before_slash(name@, depth as nat) == name@.subrange(0, i as int) + before_slash(
                name@.subrange(i as int, n as int),
                (depth - seen) as nat,
            ),
        ensures
            i <= n,
            before_slash(name@, depth as nat) == name@.subrange(0, i as int),
        decreases n - i,
    {
        let c = name.get_char(i);
        proof {
            lemma_before_slash_step(name@, i as int, (depth - seen) as nat);
        }
        if c == '/' {
            if seen + 1 == depth {
                assert(before_slash(name@, depth as nat) =~= name@.subrange(0, i as int));
                break;
            }
            seen += 1;
        }
        proof {
            assert(name@.subrange(0, i + 1) =~= name@.subrange(0, i as int) + seq![c]);
        }
        i += 1;
        proof {
            assert(before_slash(name@, depth as nat) =~= name@.subrange(0, i as int)
                + before_slash(name@.subrange(i as int, n as int), (depth - seen) as nat));
            if i == n {
                assert(name@.subrange(n as int, n as int).len() == 0);
                assert(before_slash(name@, depth as nat) =~= name@.subrange(0, i as int));
            }
        }
    }
    let mut out = String::new();
    push_dotted(&mut out, name, 0, i);
    assert(out@ =~= package_of(name@));
    out
}

/// Namespace of a Clojure namespace-loader class (`a/b__init.class` gives `a.b`).
pub fn detect_clojure_ns(name: &str) -> (r: Option<String>)
    ensures
        match r {
            Some(s) => clojure_ns_of(name@) == Some(s@),
            None => clojure_ns_of(name@).is_none(),
        },
{
    let suffix = "__init.class";
    if !ends_with(name, suffix) {
        return None;
    }
    let n = name.unicode_len();
    let m = suffix.unicode_len();
    let mut out = String::new();
    push_dotted(&mut out, name, 0, n - m);
    assert(out@ =~= slashes_to_dots(name@.subrange(0, n - m)));
    Some(out)
}

} // verus!
