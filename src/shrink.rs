//! The shrink rules: which archive entries a shrunk archive leaves out.
use vstd::prelude::*;
use crate::classify::is_clojure_source_name;
use crate::text::{
    ascii_lower, base_name, base_name_start, ends_with, has_prefix, has_suffix, starts_with,
    str_eq, to_ascii_lower, views,
};

verus! {

/// Outcome of rewriting an archive without its non-essential entries.
pub struct ShrinkResult {
    pub jar_path: String,
    pub original_size: u64,
    pub shrunk_size: u64,
}

pub open spec fn is_signature_name(n: Seq<char>) -> bool {
    has_suffix(n, ".SF"@) || has_suffix(n, ".DSA"@) || has_suffix(n, ".RSA"@) || has_suffix(
        n,
        ".EC"@,
    )
}

/// A base name that starts with `license` or `notice`, given in lower case.
pub open spec fn is_legal_base(lower_base: Seq<char>) -> bool {
    has_prefix(lower_base, "license"@) || has_prefix(lower_base, "notice"@)
}

/// A documentation file under `META-INF/` that is not a legal notice, judged
/// on the lower-cased name.
pub open spec fn is_doc_name(lower: Seq<char>) -> bool {
    (has_suffix(lower, ".md"@) || has_suffix(lower, ".txt"@) || has_suffix(lower, ".html"@))
        && !is_legal_base(base_name(lower))
}

/// Entries that a shrunk archive leaves out.
pub open spec fn skip_rule(n: Seq<char>) -> bool {
    ||| has_prefix(n, "META-INF/maven/"@)
    ||| (has_prefix(n, "META-INF/"@) && is_signature_name(n))
    ||| has_suffix(n, ".java"@)
    ||| has_prefix(n, "META-INF/leiningen/"@)
    ||| n == "project.clj"@
    ||| (has_prefix(n, "META-INF/"@) && is_doc_name(ascii_lower(n)))
}

/// Whether the shrinker leaves an entry out.
pub fn should_skip(name: &str) -> (r: bool)
    ensures
        r == skip_rule(name@),
{
    if starts_with(name, "META-INF/maven/") {
        return true;
    }
    let meta = starts_with(name, "META-INF/");
    if meta && (ends_with(name, ".SF") || ends_with(name, ".DSA") || ends_with(name, ".RSA")
        || ends_with(name, ".EC")) {
        return true;
    }
    if ends_with(name, ".java") {
        return true;
    }
    if starts_with(name, "META-INF/leiningen/") {
        return true;
    }
    if str_eq(name, "project.clj") {
        return true;
    }
    if meta {
        let lower = to_ascii_lower(name);
        let l = lower.as_str();
        if ends_with(l, ".md") || ends_with(l, ".txt") || ends_with(l, ".html") {
            let b = base_name_start(l);
            let base = l.substring_char(b, l.unicode_len());
            if !starts_with(base, "license") && !starts_with(base, "notice") {
                return true;
            }
        }
    }
    false
}

/// Indices of the entries that a shrunk archive keeps, in archive order.
pub open spec fn kept_indices(names: Seq<Seq<char>>) -> Seq<int>
    decreases names.len(),
{
    if names.len() == 0 {
        seq![]
    } else if skip_rule(names.last()) {
        kept_indices(names.drop_last())
    } else {
        kept_indices(names.drop_last()).push(names.len() - 1)
    }
}

/// Which entries, by index into `names`, the shrunk archive is written from.
pub fn shrink_plan(names: &Vec<String>) -> (r: Vec<usize>)
    ensures
        r@.map_values(|i: usize| i as int) == kept_indices(views(names@)),
{
    let mut out: Vec<usize> = Vec::new();
    let mut i: usize = 0;
    while i < names.len()
        invariant
            i <= names@.len(),
            out@.map_values(|k: usize| k as int) == kept_indices(views(names@.subrange(0, i as int))),
        decreases names@.len() - i,
    {
        let skip = should_skip(names[i].as_str());
        proof {
            let pre = views(names@.subrange(0, i as int));
            let next = views(names@.subrange(0, i + 1));
            assert(next.drop_last() =~= pre);
            assert(next.last() == names@[i as int]@);
        }
        if !skip {
            out.push(i);
        }
        proof {
            assert(out@.map_values(|k: usize| k as int) =~= kept_indices(
                views(names@.subrange(0, i + 1)),
            ));
        }
        i += 1;
    }
    assert(names@.subrange(0, names@.len() as int) =~= names@);
    out
}

/// An entry of an archive as the shrink law speaks of it: name and content.
pub open spec fn entry_names(entries: Seq<(Seq<char>, Seq<u8>)>) -> Seq<Seq<char>> {
    entries.map_values(|e: (Seq<char>, Seq<u8>)| e.0)
}

/// Writing the entries at the planned indices gives exactly the entries whose
/// names the skip rules do not match, in archive order and with their content
/// unchanged.
pub proof fn lemma_shrink_keeps_exactly(entries: Seq<(Seq<char>, Seq<u8>)>)
    ensures
        kept_indices(entry_names(entries)).map_values(|i: int| entries[i]) == entries.filter(
            |e: (Seq<char>, Seq<u8>)| !skip_rule(e.0),
        ),
    decreases entries.len(),
{
    let pred = |e: (Seq<char>, Seq<u8>)| !skip_rule(e.0);
    if entries.len() == 0 {
        assert(entries.filter(pred) =~= seq![]);
        assert(kept_indices(entry_names(entries)).map_values(|i: int| entries[i]) =~= seq![]);
    } else {
        let init = entries.drop_last();
        let last = entries.last();
        lemma_shrink_keeps_exactly(init);
        assert(entry_names(entries).drop_last() =~= entry_names(init));
        assert(entry_names(entries).last() == last.0);
        assert(init.push(last) =~= entries);
        init.lemma_filter_push(last, pred);
        lemma_kept_indices_bound(entry_names(init));
        let ki = kept_indices(entry_names(init));
        assert(ki.map_values(|i: int| entries[i]) =~= ki.map_values(|i: int| init[i]));
        if skip_rule(last.0) {
        } else {
            assert(ki.push(entries.len() - 1).map_values(|i: int| entries[i]) =~= ki.map_values(
                |i: int| entries[i],
            ).push(last));
        }
    }
}

proof fn lemma_kept_indices_bound(names: Seq<Seq<char>>)
    ensures
        forall|k: int|
            0 <= k < kept_indices(names).len() ==> 0 <= #[trigger] kept_indices(names)[k]
                < names.len(),
    decreases names.len(),
{
    if names.len() > 0 {
        let init = names.drop_last();
        lemma_kept_indices_bound(init);
        assert forall|k: int| 0 <= k < kept_indices(names).len() implies 0
            <= #[trigger] kept_indices(names)[k] < names.len() by {
            if !skip_rule(names.last()) && k < kept_indices(init).len() {
                assert(kept_indices(names)[k] == kept_indices(init)[k]);
            }
        }
    }
}

impl ShrinkResult {
    /// The archive that later stages use: the shrunk one only when it is
    /// smaller, otherwise the original.
    pub fn effective_path(&self, original_path: &str) -> (r: String)
        ensures
            r@ == if self.shrunk_size < self.original_size {
                self.jar_path@
            } else {
                original_path@
            },
    {
        if self.shrunk_size < self.original_size {
            self.jar_path.clone()
        } else {
            crate::text::owned(original_path)
        }
    }

    /// Size of the archive that later stages use.
    pub fn effective_size(&self) -> (r: u64)
        ensures
            r <= self.original_size,
            r <= self.shrunk_size,
            r == self.original_size || r == self.shrunk_size,
    {
        if self.shrunk_size < self.original_size {
            self.shrunk_size
        } else {
            self.original_size
        }
    }
}

proof fn lemma_suffix_last(n: Seq<char>, p: Seq<char>)
    requires
        has_suffix(n, p),
        p.len() > 0,
    ensures
        n.last() == p.last(),
        p.len() >= 2 ==> n[n.len() - 2] == p[p.len() - 2],
{
    assert(n.subrange(n.len() - p.len(), n.len() as int)[p.len() - 1] == n.last());
    if p.len() >= 2 {
        assert(n.subrange(n.len() - p.len(), n.len() as int)[p.len() - 2] == n[n.len() - 2]);
    }
}

proof fn lemma_lower_last(n: Seq<char>)
    requires
        n.len() > 0,
    ensures
        ascii_lower(n).len() == n.len(),
        ascii_lower(n).last() == crate::text::ascii_lower_char(n.last()),
{
}

/// Documentation suffixes end in `d`, `t` or `l`.
proof fn lemma_doc_last(lower: Seq<char>)
    requires
        is_doc_name(lower),
    ensures
        lower.last() == 'd' || lower.last() == 't' || lower.last() == 'l',
{
    reveal_strlit(".md");
    reveal_strlit(".txt");
    reveal_strlit(".html");
    if has_suffix(lower, ".md"@) {
        lemma_suffix_last(lower, ".md"@);
    } else if has_suffix(lower, ".txt"@) {
        lemma_suffix_last(lower, ".txt"@);
    } else {
        lemma_suffix_last(lower, ".html"@);
    }
}

/// The shrink rules keep what an application needs: class files, Clojure
/// sources, the manifest and legal notices (`LICENSE*`, `NOTICE*`, in any
/// case) are never left out, except where a rule names such an entry itself:
/// anything under `META-INF/maven/` or `META-INF/leiningen/`, `project.clj`,
/// and, for legal notices, a `.java` file or a signature file under `META-INF/`.
pub proof fn lemma_skip_keeps_essential(n: Seq<char>)
    ensures
        has_suffix(n, ".class"@) && !has_prefix(n, "META-INF/maven/"@) && !has_prefix(
            n,
            "META-INF/leiningen/"@,
        ) ==> !skip_rule(n),
        is_clojure_source_name(n) && !has_prefix(n, "META-INF/maven/"@) && !has_prefix(
            n,
            "META-INF/leiningen/"@,
        ) && n != "project.clj"@ ==> !skip_rule(n),
        n == "META-INF/MANIFEST.MF"@ ==> !skip_rule(n),
        is_legal_base(base_name(ascii_lower(n))) && !has_prefix(n, "META-INF/maven/"@) && !has_prefix(
            n,
            "META-INF/leiningen/"@,
        ) && !has_suffix(n, ".java"@) && !(has_prefix(n, "META-INF/"@) && is_signature_name(n))
            && n != "project.clj"@ ==> !skip_rule(n),
{
    reveal_strlit(".class");
    reveal_strlit(".clj");
    reveal_strlit(".cljc");
    reveal_strlit(".cljs");
    reveal_strlit(".SF");
    reveal_strlit(".DSA");
    reveal_strlit(".RSA");
    reveal_strlit(".EC");
    reveal_strlit(".java");
    reveal_strlit("project.clj");
    reveal_strlit("META-INF/MANIFEST.MF");
    reveal_strlit("META-INF/maven/");
    reveal_strlit("META-INF/leiningen/");
    if n.len() > 0 {
        lemma_lower_last(n);
        if has_prefix(n, "META-INF/"@) && is_doc_name(ascii_lower(n)) {
            lemma_doc_last(ascii_lower(n));
        }
        if has_suffix(n, ".SF"@) {
            lemma_suffix_last(n, ".SF"@);
        }
        if has_suffix(n, ".DSA"@) {
            lemma_suffix_last(n, ".DSA"@);
        }
        if has_suffix(n, ".RSA"@) {
            lemma_suffix_last(n, ".RSA"@);
        }
        if has_suffix(n, ".EC"@) {
            lemma_suffix_last(n, ".EC"@);
        }
        if has_suffix(n, ".java"@) {
            lemma_suffix_last(n, ".java"@);
        }
        if has_suffix(n, ".class"@) {
            lemma_suffix_last(n, ".class"@);
        }
        if has_suffix(n, ".clj"@) {
            lemma_suffix_last(n, ".clj"@);
        }
        if has_suffix(n, ".cljc"@) {
            lemma_suffix_last(n, ".cljc"@);
        }
        if has_suffix(n, ".cljs"@) {
            lemma_suffix_last(n, ".cljs"@);
        }
        if n == "META-INF/MANIFEST.MF"@ {
            assert(n[9] == 'M');
            if has_prefix(n, "META-INF/maven/"@) {
                assert(n.subrange(0, 15)[9] == 'm');
            }
            if has_prefix(n, "META-INF/leiningen/"@) {
                assert(n.subrange(0, 19)[9] == 'l');
            }
        }
    }
}

} // verus!
