//! The size analyzer: one pass over an archive's entry list that reports
//! sizes by category, package and Clojure namespace, the removable share, and
//! possible problems.
use vstd::prelude::*;
use crate::classify::{category_of, classify_entry, clojure_ns_of, detect_clojure_ns, extract_package, package_of, EntryCategory};
use crate::shrink::{should_skip, skip_rule};
use crate::text::{dec_str, digit, digit_char, owned, push_char, push_decimal, push_str};

verus! {

/// Resources at least this large are reported.
pub const LARGE_RESOURCE_THRESHOLD: u64 = 1048576;

/// Packages and namespaces reported, at most.
pub const TOP_N: usize = 20;

/// An entry of an archive as listed in its directory.
#[derive(Debug, Clone)]
pub struct ArchiveEntry {
    pub name: String,
    pub is_dir: bool,
    /// Uncompressed size in bytes.
    pub size: u64,
}

#[derive(Debug)]
pub struct CategoryStats {
    pub name: String,
    pub size: u64,
    pub file_count: usize,
}

#[derive(Debug)]
pub struct ShrinkEstimate {
    pub removable_size: u64,
    pub removable_files: usize,
}

#[derive(Debug)]
pub struct AnalysisIssue {
    pub message: String,
}

#[derive(Debug)]
pub struct AnalysisReport {
    pub jar_path: String,
    pub disk_size: u64,
    pub total_uncompressed: u64,
    pub entry_count: usize,
    pub categories: Vec<CategoryStats>,
    pub top_packages: Vec<(String, u64, usize)>,
    pub clojure_namespaces: Vec<(String, u64, usize)>,
    pub shrink_estimate: ShrinkEstimate,
    pub issues: Vec<AnalysisIssue>,
}

/// A group: key, total size, number of files.
pub type GroupView = (Seq<char>, nat, nat);

pub open spec fn entry_view(e: ArchiveEntry) -> (Seq<char>, bool, nat) {
    (e.name@, e.is_dir, e.size as nat)
}

pub open spec fn group_view(g: (String, u64, usize)) -> GroupView {
    (g.0@, g.1 as nat, g.2 as nat)
}

pub open spec fn groups_view(g: Seq<(String, u64, usize)>) -> Seq<GroupView> {
    g.map_values(|x: (String, u64, usize)| group_view(x))
}

/// Label under which a category is reported.
pub open spec fn category_label(c: EntryCategory) -> Seq<char> {
    match c {
        EntryCategory::Class => "Classes"@,
        EntryCategory::Resource => "Resources"@,
        EntryCategory::NativeLib => "Native libs"@,
        EntryCategory::Metadata => "Metadata"@,
        EntryCategory::ClojureSource => "Clojure sources"@,
        EntryCategory::JavaSource => "Java sources"@,
    }
}

/// Index of the first group with key `k`, or -1.
pub open spec fn key_index(g: Seq<GroupView>, k: Seq<char>) -> int
    decreases g.len(),
{
    if g.len() == 0 {
        -1
    } else {
        let p = key_index(g.drop_last(), k);
        if p >= 0 {
            p
        } else if g.last().0 == k {
            g.len() - 1
        } else {
            -1
        }
    }
}

/// Counts one file of size `size` under key `k`.
pub open spec fn group_add(g: Seq<GroupView>, k: Seq<char>, size: nat) -> Seq<GroupView> {
    let i = key_index(g, k);
    if i >= 0 {
        g.update(i, (k, g[i].1 + size, g[i].2 + 1))
    } else {
        g.push((k, size, 1))
    }
}

/// Groups of keyed sizes, in order of first appearance.
pub open spec fn grouped(items: Seq<(Seq<char>, nat)>) -> Seq<GroupView>
    decreases items.len(),
{
    if items.len() == 0 {
        seq![]
    } else {
        group_add(grouped(items.drop_last()), items.last().0, items.last().1)
    }
}

/// The ways the analyzer keys an archive's files.
pub enum KeyKind {
    Category,
    Package,
    Namespace,
    ClassName,
    Removable,
    LargeResource,
    Any,
}

/// The key a file of name `n` and size `size` is counted under, if any.
pub open spec fn key_of(kind: KeyKind, n: Seq<char>, size: nat) -> Option<Seq<char>> {
    match kind {
        KeyKind::Category => Some(category_label(category_of(n))),
        KeyKind::Package => Some(package_of(n)),
        KeyKind::Namespace => if category_of(n) == EntryCategory::Class {
            clojure_ns_of(n)
        } else {
            None
        },
        KeyKind::ClassName => if category_of(n) == EntryCategory::Class {
            Some(n)
        } else {
            None
        },
        KeyKind::Removable => if skip_rule(n) {
            Some(n)
        } else {
            None
        },
        KeyKind::LargeResource => if category_of(n) == EntryCategory::Resource && size
            >= LARGE_RESOURCE_THRESHOLD {
            Some(n)
        } else {
            None
        },
        KeyKind::Any => Some(n),
    }
}

/// Keyed sizes of the files (not directories) of an entry list, in order.
pub open spec fn keyed_files(es: Seq<(Seq<char>, bool, nat)>, kind: KeyKind) -> Seq<(Seq<char>, nat)>
    decreases es.len(),
{
    if es.len() == 0 {
        seq![]
    } else {
        let e = es.last();
        let prev = keyed_files(es.drop_last(), kind);
        if e.1 {
            prev
        } else {
            match key_of(kind, e.0, e.2) {
                Some(k) => prev.push((k, e.2)),
                None => prev,
            }
        }
    }
}

pub open spec fn size_sum(items: Seq<(Seq<char>, nat)>) -> nat
    decreases items.len(),
{
    if items.len() == 0 {
        0
    } else {
        size_sum(items.drop_last()) + items.last().1
    }
}

/// Total uncompressed size of the files of an entry list.
pub open spec fn files_size(es: Seq<(Seq<char>, bool, nat)>) -> nat {
    size_sum(keyed_files(es, KeyKind::Any))
}

pub open spec fn entries_view(es: Seq<ArchiveEntry>) -> Seq<(Seq<char>, bool, nat)> {
    es.map_values(|e: ArchiveEntry| entry_view(e))
}

/// First index whose size is below `size`, or the length.
pub open spec fn desc_pos(s: Seq<GroupView>, size: nat) -> int
    decreases s.len(),
{
    if s.len() == 0 {
        0
    } else {
        let p = desc_pos(s.drop_last(), size);
        if p < s.len() - 1 {
            p
        } else if s.last().1 < size {
            s.len() - 1
        } else {
            s.len() as int
        }
    }
}

/// Stable insertion sort by size, largest first.
pub open spec fn sort_desc(s: Seq<GroupView>) -> Seq<GroupView>
    decreases s.len(),
{
    if s.len() == 0 {
        seq![]
    } else {
        let r = sort_desc(s.drop_last());
        r.insert(desc_pos(r, s.last().1), s.last())
    }
}

/// The first `TOP_N` elements.
pub open spec fn top(s: Seq<GroupView>) -> Seq<GroupView> {
    if s.len() <= TOP_N {
        s
    } else {
        s.subrange(0, TOP_N as int)
    }
}

/// Lexicographic order of character sequences.
pub open spec fn lex_lt(a: Seq<char>, b: Seq<char>) -> bool
    decreases a.len(),
{
    if a.len() == 0 {
        b.len() > 0
    } else if b.len() == 0 {
        false
    } else if a[0] != b[0] {
        a[0] < b[0]
    } else {
        lex_lt(a.drop_first(), b.drop_first())
    }
}

/// First index whose text is after `x`, or the length.
pub open spec fn lex_pos(s: Seq<Seq<char>>, x: Seq<char>) -> int
    decreases s.len(),
{
    if s.len() == 0 {
        0
    } else {
        let p = lex_pos(s.drop_last(), x);
        if p < s.len() - 1 {
            p
        } else if lex_lt(x, s.last()) {
            s.len() - 1
        } else {
            s.len() as int
        }
    }
}

/// Insertion sort of texts in lexicographic order.
pub open spec fn sort_lex(s: Seq<Seq<char>>) -> Seq<Seq<char>>
    decreases s.len(),
{
    if s.len() == 0 {
        seq![]
    } else {
        let r = sort_lex(s.drop_last());
        r.insert(lex_pos(r, s.last()), s.last())
    }
}

/// Message for a class name found `count` times.
pub open spec fn duplicate_message(name: Seq<char>, count: nat) -> Seq<char> {
    "Duplicate class: "@ + name + " ("@ + dec_str(count) + " occurrences)"@
}

/// Messages for the class names found more than once, in group order.
pub open spec fn duplicate_messages(g: Seq<GroupView>) -> Seq<Seq<char>>
    decreases g.len(),
{
    if g.len() == 0 {
        seq![]
    } else {
        let prev = duplicate_messages(g.drop_last());
        if g.last().2 > 1 {
            prev.push(duplicate_message(g.last().0, g.last().2))
        } else {
            prev
        }
    }
}

/// A byte count as the progress library writes it for people.
pub uninterp spec fn human_bytes_of(n: u64) -> Seq<char>;

/// Relies on `indicatif::HumanBytes`: its `Display` form of a byte count
/// (binary prefixes), which depends on the count alone.
#[verifier::external_body]
fn human_bytes(n: u64) -> (r: String)
    ensures
        r@ == human_bytes_of(n),
{
    format!("{}", indicatif::HumanBytes(n))
}

pub open spec fn large_message(name: Seq<char>, human: Seq<char>) -> Seq<char> {
    "Large resource: "@ + name + " ("@ + human + ")"@
}

pub open spec fn large_messages(l: Seq<(Seq<char>, nat)>) -> Seq<Seq<char>>
    decreases l.len(),
{
    if l.len() == 0 {
        seq![]
    } else {
        large_messages(l.drop_last()).push(large_message(l.last().0, human_bytes_of(l.last().1 as u64)))
    }
}

/// The issues of a report: duplicate classes sorted by message, then large
/// resources in archive order.
pub open spec fn issues_of(es: Seq<(Seq<char>, bool, nat)>) -> Seq<Seq<char>> {
    sort_lex(duplicate_messages(grouped(keyed_files(es, KeyKind::ClassName)))) + large_messages(
        keyed_files(es, KeyKind::LargeResource),
    )
}

pub open spec fn stats_view(c: CategoryStats) -> GroupView {
    (c.name@, c.size as nat, c.file_count as nat)
}

pub open spec fn stats_views(v: Seq<CategoryStats>) -> Seq<GroupView> {
    v.map_values(|c: CategoryStats| stats_view(c))
}

/// The report on an archive's entries: every figure is over its files, not its
/// directories; groups are sorted by size, largest first, keeping the order of
/// first appearance among equal sizes.
pub open spec fn report_matches(r: AnalysisReport, jar_path: Seq<char>, disk_size: u64, es: Seq<(Seq<char>, bool, nat)>) -> bool {
    &&& r.jar_path@ == jar_path
    &&& r.disk_size == disk_size
    &&& r.total_uncompressed == files_size(es)
    &&& r.entry_count == es.len()
    &&& stats_views(r.categories@) == sort_desc(grouped(keyed_files(es, KeyKind::Category)))
    &&& groups_view(r.top_packages@) == top(sort_desc(grouped(keyed_files(es, KeyKind::Package))))
    &&& groups_view(r.clojure_namespaces@) == top(
        sort_desc(grouped(keyed_files(es, KeyKind::Namespace))),
    )
    &&& r.shrink_estimate.removable_size == size_sum(keyed_files(es, KeyKind::Removable))
    &&& r.shrink_estimate.removable_files == keyed_files(es, KeyKind::Removable).len()
    &&& messages_view(r.issues@) == issues_of(es)
}

// ---------------------------------------------------------------------------
// Groups
proof fn lemma_key_index_range(g: Seq<GroupView>, k: Seq<char>)
    ensures
        -1 <= key_index(g, k) < g.len(),
        key_index(g, k) >= 0 ==> g[key_index(g, k)].0 == k,
        key_index(g, k) == -1 ==> forall|j: int| 0 <= j < g.len() ==> g[j].0 != k,
        key_index(g, k) >= 0 ==> forall|j: int| 0 <= j < key_index(g, k) ==> g[j].0 != k,
    decreases g.len(),
{
    if g.len() > 0 {
        lemma_key_index_range(g.drop_last(), k);
        assert forall|j: int| 0 <= j < g.len() - 1 implies g[j] == g.drop_last()[j] by {}
    }
}

/// The first group with key `k`, by a forward scan.
proof fn lemma_key_index_first(g: Seq<GroupView>, k: Seq<char>, j: int)
    requires
        0 <= j <= g.len(),
        forall|i: int| 0 <= i < j ==> g[i].0 != k,
        j < g.len() ==> g[j].0 == k,
    ensures
        key_index(g, k) == if j < g.len() {
            j
        } else {
            -1
        },
{
    lemma_key_index_range(g, k);
}

/// Counts `size` under `key`, keeping group sizes and counts in range.
fn add_to_group(groups: &mut Vec<(String, u64, usize)>, key: String, size: u64)
    requires
        forall|i: int|
            0 <= i < old(groups)@.len() ==> #[trigger] old(groups)@[i].1 + size <= u64::MAX
                && old(groups)@[i].2 < usize::MAX,
    ensures
        groups_view(final(groups)@) == group_add(groups_view(old(groups)@), key@, size as nat),
{
    let ghost g0 = groups_view(groups@);
    let mut j: usize = 0;
    while j < groups.len()
        invariant
            j <= groups@.len(),
            groups@ == old(groups)@,
            g0 == groups_view(groups@),
            forall|i: int|
                0 <= i < old(groups)@.len() ==> #[trigger] old(groups)@[i].1 + size <= u64::MAX
                    && old(groups)@[i].2 < usize::MAX,
            forall|i: int| 0 <= i < j ==> g0[i].0 != key@,
        decreases groups@.len() - j,
    {
        if crate::text::str_eq(groups[j].0.as_str(), key.as_str()) {
            proof {
                lemma_key_index_first(g0, key@, j as int);
            }
            assert(old(groups)@[j as int].1 + size <= u64::MAX && old(groups)@[j as int].2 < usize::MAX);
            let (k, s, c) = (groups[j].0.clone(), groups[j].1, groups[j].2);
            groups.set(j, (k, s + size, c + 1));
            assert(groups_view(groups@) =~= group_add(g0, key@, size as nat));
            return ;
        }
        j += 1;
    }
    proof {
        lemma_key_index_first(g0, key@, j as int);
    }
    groups.push((key, size, 1));
    assert(groups_view(groups@) =~= group_add(g0, key@, size as nat));
}

proof fn lemma_group_add_bounds(g: Seq<GroupView>, k: Seq<char>, size: nat, total: nat, n: nat)
    requires
        forall|i: int| 0 <= i < g.len() ==> #[trigger] g[i].1 <= total && g[i].2 <= n,
    ensures
        forall|i: int|
            0 <= i < group_add(g, k, size).len() ==> #[trigger] group_add(g, k, size)[i].1 <= total
                + size && group_add(g, k, size)[i].2 <= n + 1,
{
    lemma_key_index_range(g, k);
}

// ---------------------------------------------------------------------------
// Sorting
proof fn lemma_desc_pos_first(s: Seq<GroupView>, size: nat, j: int)
    requires
        0 <= j <= s.len(),
        forall|i: int| 0 <= i < j ==> s[i].1 >= size,
        j < s.len() ==> s[j].1 < size,
    ensures
        desc_pos(s, size) == j,
    decreases s.len(),
{
    if s.len() > 0 {
        if j < s.len() {
            if j < s.len() - 1 {
                lemma_desc_pos_first(s.drop_last(), size, j);
            } else {
                lemma_desc_pos_first(s.drop_last(), size, s.len() - 1);
            }
        } else {
            lemma_desc_pos_first(s.drop_last(), size, s.len() - 1);
        }
    }
}

/// Sorts groups by size, largest first, keeping the order among equals.
pub fn sort_by_size_desc(v: &Vec<(String, u64, usize)>) -> (r: Vec<(String, u64, usize)>)
    ensures
        groups_view(r@) == sort_desc(groups_view(v@)),
{
    let mut r: Vec<(String, u64, usize)> = Vec::new();
    let mut i: usize = 0;
    while i < v.len()
        invariant
            i <= v@.len(),
            groups_view(r@) == sort_desc(groups_view(v@.subrange(0, i as int))),
        decreases v@.len() - i,
    {
        let x = (v[i].0.clone(), v[i].1, v[i].2);
        let mut p: usize = 0;
        while p < r.len() && r[p].1 >= x.1
            invariant
                p <= r@.len(),
                forall|q: int| 0 <= q < p ==> r@[q].1 >= x.1,
            decreases r@.len() - p,
        {
            p += 1;
        }
        proof {
            let rv = groups_view(r@);
            lemma_desc_pos_first(rv, x.1 as nat, p as int);
            let t = groups_view(v@.subrange(0, i + 1));
            assert(t.drop_last() =~= groups_view(v@.subrange(0, i as int)));
            assert(t.last() == group_view(x));
        }
        r.insert(p, x);
        proof {
            assert(groups_view(r@) =~= sort_desc(groups_view(v@.subrange(0, i + 1))));
        }
        i += 1;
    }
    assert(v@.subrange(0, v@.len() as int) =~= v@);
    r
}

/// Keeps the first `TOP_N` groups.
fn keep_top(v: &mut Vec<(String, u64, usize)>)
    ensures
        groups_view(final(v)@) == top(groups_view(old(v)@)),
{
    v.truncate(TOP_N);
    assert(groups_view(v@) =~= top(groups_view(old(v)@)));
}

/// Whether `a` comes before `b` in lexicographic order.
pub fn lex_less(a: &str, b: &str) -> (r: bool)
    ensures
        r == lex_lt(a@, b@),
{
    let n = a.unicode_len();
    let m = b.unicode_len();
    let mut i: usize = 0;
    assert(a@.subrange(0, n as int) =~= a@);
    assert(b@.subrange(0, m as int) =~= b@);
    while i < n && i < m
        invariant
            n == a@.len(),
            m == b@.len(),
            i <= n,
            i <= m,
            lex_lt(a@, b@) == lex_lt(a@.subrange(i as int, n as int), b@.subrange(i as int, m as int)),
        decreases n - i,
    {
        let x = a.get_char(i);
        let y = b.get_char(i);
        proof {
            let sa = a@.subrange(i as int, n as int);
            let sb = b@.subrange(i as int, m as int);
            assert(sa.drop_first() =~= a@.subrange(i + 1, n as int));
            assert(sb.drop_first() =~= b@.subrange(i + 1, m as int));
            assert(sa[0] == x && sb[0] == y);
        }
        if x != y {
            return x < y;
        }
        i += 1;
    }
    i < m
}

proof fn lemma_lex_pos_first(s: Seq<Seq<char>>, x: Seq<char>, j: int)
    requires
        0 <= j <= s.len(),
        forall|i: int| 0 <= i < j ==> !lex_lt(x, #[trigger] s[i]),
        j < s.len() ==> lex_lt(x, s[j]),
    ensures
        lex_pos(s, x) == j,
    decreases s.len(),
{
    if s.len() > 0 {
        if j < s.len() - 1 {
            lemma_lex_pos_first(s.drop_last(), x, j);
        } else {
            lemma_lex_pos_first(s.drop_last(), x, s.len() - 1);
        }
    }
}

pub open spec fn messages_view(v: Seq<AnalysisIssue>) -> Seq<Seq<char>> {
    v.map_values(|i: AnalysisIssue| i.message@)
}

/// Sorts messages in lexicographic order, keeping the order among equals.
fn sort_messages(v: Vec<String>) -> (r: Vec<AnalysisIssue>)
    ensures
        messages_view(r@) == sort_lex(crate::text::views(v@)),
{
    let mut r: Vec<AnalysisIssue> = Vec::new();
    let mut i: usize = 0;
    while i < v.len()
        invariant
            i <= v@.len(),
            messages_view(r@) == sort_lex(crate::text::views(v@.subrange(0, i as int))),
        decreases v@.len() - i,
    {
        let x = v[i].clone();
        let mut p: usize = 0;
        while p < r.len() && !lex_less(x.as_str(), r[p].message.as_str())
            invariant
                p <= r@.len(),
                forall|q: int| 0 <= q < p ==> !lex_lt(x@, #[trigger] messages_view(r@)[q]),
            decreases r@.len() - p,
        {
            p += 1;
        }
        proof {
            lemma_lex_pos_first(messages_view(r@), x@, p as int);
            let t = crate::text::views(v@.subrange(0, i + 1));
            assert(t.drop_last() =~= crate::text::views(v@.subrange(0, i as int)));
            assert(t.last() == x@);
        }
        r.insert(p, AnalysisIssue { message: x });
        proof {
            assert(messages_view(r@) =~= sort_lex(crate::text::views(v@.subrange(0, i + 1))));
        }
        i += 1;
    }
    assert(v@.subrange(0, v@.len() as int) =~= v@);
    r
}

/// The message for a duplicated class.
pub fn duplicate_class_message(name: &str, count: usize) -> (r: String)
    ensures
        r@ == duplicate_message(name@, count as nat),
{
    let mut m = owned("Duplicate class: ");
    push_str(&mut m, name);
    push_str(&mut m, " (");
    push_decimal(&mut m, count as u64);
    push_str(&mut m, " occurrences)");
    m
}

/// The message for a large resource, given its size as written for people.
pub fn large_resource_message(name: &str, human: &str) -> (r: String)
    ensures
        r@ == large_message(name@, human@),
{
    let mut m = owned("Large resource: ");
    push_str(&mut m, name);
    push_str(&mut m, " (");
    push_str(&mut m, human);
    push_str(&mut m, ")");
    m
}

// ---------------------------------------------------------------------------
// The report
proof fn lemma_keyed_sum_le(es: Seq<(Seq<char>, bool, nat)>, kind: KeyKind)
    ensures
        size_sum(keyed_files(es, kind)) <= files_size(es),
        keyed_files(es, kind).len() <= es.len(),
    decreases es.len(),
{
    if es.len() > 0 {
        lemma_keyed_sum_le(es.drop_last(), kind);
        let e = es.last();
        let p = keyed_files(es.drop_last(), kind);
        let q = keyed_files(es.drop_last(), KeyKind::Any);
        if !e.1 {
            match key_of(kind, e.0, e.2) {
                Some(k) => {
                    assert(p.push((k, e.2)).drop_last() =~= p);
                },
                None => {},
            }
            assert(q.push((e.0, e.2)).drop_last() =~= q);
        }
    }
}

proof fn lemma_files_size_prefix(es: Seq<(Seq<char>, bool, nat)>, k: int)
    requires
        0 <= k <= es.len(),
    ensures
        files_size(es.subrange(0, k)) <= files_size(es),
    decreases es.len() - k,
{
    if k < es.len() {
        lemma_files_size_prefix(es, k + 1);
        let t = es.subrange(0, k + 1);
        assert(t.drop_last() =~= es.subrange(0, k));
        let q = keyed_files(t.drop_last(), KeyKind::Any);
        if !t.last().1 {
            assert(q.push((t.last().0, t.last().2)).drop_last() =~= q);
        }
    } else {
        assert(es.subrange(0, k) =~= es);
    }
}

proof fn lemma_keyed_push(es: Seq<(Seq<char>, bool, nat)>, e: (Seq<char>, bool, nat), kind: KeyKind)
    ensures
        keyed_files(es.push(e), kind) == if e.1 {
            keyed_files(es, kind)
        } else {
            match key_of(kind, e.0, e.2) {
                Some(k) => keyed_files(es, kind).push((k, e.2)),
                None => keyed_files(es, kind),
            }
        },
{
    assert(es.push(e).drop_last() =~= es);
}

proof fn lemma_sum_push(items: Seq<(Seq<char>, nat)>, x: (Seq<char>, nat))
    ensures
        size_sum(items.push(x)) == size_sum(items) + x.1,
        grouped(items.push(x)) == group_add(grouped(items), x.0, x.1),
{
    assert(items.push(x).drop_last() =~= items);
}

pub open spec fn pairs_view(v: Seq<(String, u64)>) -> Seq<(Seq<char>, nat)> {
    v.map_values(|x: (String, u64)| (x.0@, x.1 as nat))
}

pub open spec fn bounded(g: Seq<(String, u64, usize)>, total: nat, n: nat) -> bool {
    forall|k: int| 0 <= k < g.len() ==> (#[trigger] g[k]).1 <= total && g[k].2 <= n
}

proof fn lemma_bounded_mono(g: Seq<(String, u64, usize)>, t1: nat, n1: nat, t2: nat, n2: nat)
    requires
        bounded(g, t1, n1),
        t1 <= t2,
        n1 <= n2,
    ensures
        bounded(g, t2, n2),
{
    assert forall|k: int| 0 <= k < g.len() implies #[trigger] g[k].1 <= t2 && g[k].2 <= n2 by {
        assert(g[k].1 <= t1 && g[k].2 <= n1);
    }
}

/// Name under which a category is reported.
pub fn category_name(c: EntryCategory) -> (r: &'static str)
    ensures
        r@ == category_label(c),
{
    match c {
        EntryCategory::Class => "Classes",
        EntryCategory::Resource => "Resources",
        EntryCategory::NativeLib => "Native libs",
        EntryCategory::Metadata => "Metadata",
        EntryCategory::ClojureSource => "Clojure sources",
        EntryCategory::JavaSource => "Java sources",
    }
}

/// Adds a file to a group list whose sizes and counts stay within the totals.
fn add_bounded(g: &mut Vec<(String, u64, usize)>, key: String, size: u64, Ghost(total): Ghost<nat>, Ghost(n): Ghost<nat>)
    requires
        bounded(old(g)@, total, n),
        total + size <= u64::MAX,
        n < usize::MAX,
    ensures
        groups_view(final(g)@) == group_add(groups_view(old(g)@), key@, size as nat),
        bounded(final(g)@, (total + size) as nat, n + 1),
{
    proof {
        assert forall|k: int| 0 <= k < old(g)@.len() implies #[trigger] old(g)@[k].1 + size
            <= u64::MAX && old(g)@[k].2 < usize::MAX by {
            assert(bounded(old(g)@, total, n));
            assert(old(g)@[k].1 <= total);
            assert(old(g)@[k].2 <= n);
        }
    }
    add_to_group(g, key, size);
    proof {
        let gv = groups_view(old(g)@);
        assert forall|k: int| 0 <= k < gv.len() implies #[trigger] gv[k].1 <= total && gv[k].2 <= n by {}
        lemma_group_add_bounds(gv, key@, size as nat, total, n);
        let gf = groups_view(g@);
        assert forall|k: int| 0 <= k < g@.len() implies #[trigger] g@[k].1 <= total + size && g@[k].2
            <= n + 1 by {
            assert(gf[k] == group_view(g@[k]));
            assert(gf[k].1 <= total + size && gf[k].2 <= n + 1);
        }
    }
}

/// Analyzes the entry list of an archive.
pub fn analyze_entries(jar_path: &str, disk_size: u64, entries: &Vec<ArchiveEntry>) -> (r: AnalysisReport)
    requires
        files_size(entries_view(entries@)) <= u64::MAX,
    ensures
        report_matches(r, jar_path@, disk_size, entries_view(entries@)),
{
    let ghost es = entries_view(entries@);
    let mut total: u64 = 0;
    let mut cats: Vec<(String, u64, usize)> = Vec::new();
    let mut pkgs: Vec<(String, u64, usize)> = Vec::new();
    let mut nss: Vec<(String, u64, usize)> = Vec::new();
    let mut classes: Vec<(String, u64, usize)> = Vec::new();
    let mut large: Vec<(String, u64)> = Vec::new();
    let mut shrink_size: u64 = 0;
    let mut shrink_count: usize = 0;
    let mut i: usize = 0;
    while i < entries.len()
        invariant
            i <= entries@.len(),
            es == entries_view(entries@),
            files_size(es) <= u64::MAX,
            total == files_size(es.subrange(0, i as int)),
            groups_view(cats@) == grouped(keyed_files(es.subrange(0, i as int), KeyKind::Category)),
            groups_view(pkgs@) == grouped(keyed_files(es.subrange(0, i as int), KeyKind::Package)),
            groups_view(nss@) == grouped(keyed_files(es.subrange(0, i as int), KeyKind::Namespace)),
            groups_view(classes@) == grouped(keyed_files(es.subrange(0, i as int), KeyKind::ClassName)),
            bounded(cats@, total as nat, i as nat),
            bounded(pkgs@, total as nat, i as nat),
            bounded(nss@, total as nat, i as nat),
            bounded(classes@, total as nat, i as nat),
            pairs_view(large@) == keyed_files(es.subrange(0, i as int), KeyKind::LargeResource),
            shrink_size == size_sum(keyed_files(es.subrange(0, i as int), KeyKind::Removable)),
            shrink_count == keyed_files(es.subrange(0, i as int), KeyKind::Removable).len(),
        decreases entries@.len() - i,
    {
        let e = &entries[i];
        let ghost pre = es.subrange(0, i as int);
        let ghost ev = entry_view(*e);
        proof {
            assert(es.subrange(0, i + 1) =~= pre.push(ev));
            lemma_files_size_prefix(es, i + 1);
            lemma_keyed_push(pre, ev, KeyKind::Any);
            lemma_keyed_push(pre, ev, KeyKind::Category);
            lemma_keyed_push(pre, ev, KeyKind::Package);
            lemma_keyed_push(pre, ev, KeyKind::Namespace);
            lemma_keyed_push(pre, ev, KeyKind::ClassName);
            lemma_keyed_push(pre, ev, KeyKind::LargeResource);
            lemma_keyed_push(pre, ev, KeyKind::Removable);
            lemma_keyed_sum_le(pre, KeyKind::Removable);
            lemma_keyed_sum_le(pre.push(ev), KeyKind::Removable);
            let t_new = files_size(es.subrange(0, i + 1));
            lemma_keyed_push(pre, ev, KeyKind::Any);
            lemma_sum_push(keyed_files(pre, KeyKind::Any), (ev.0, ev.2));
            assert(total <= t_new);
            lemma_bounded_mono(cats@, total as nat, i as nat, t_new, (i + 1) as nat);
            lemma_bounded_mono(pkgs@, total as nat, i as nat, t_new, (i + 1) as nat);
            lemma_bounded_mono(nss@, total as nat, i as nat, t_new, (i + 1) as nat);
            lemma_bounded_mono(classes@, total as nat, i as nat, t_new, (i + 1) as nat);
        }
        if !e.is_dir {
            let size = e.size;
            let name = e.name.as_str();
            proof {
                lemma_sum_push(keyed_files(pre, KeyKind::Any), (ev.0, ev.2));
                lemma_sum_push(keyed_files(pre, KeyKind::Category), (category_label(category_of(ev.0)), ev.2));
                lemma_sum_push(keyed_files(pre, KeyKind::Package), (package_of(ev.0), ev.2));
                lemma_sum_push(keyed_files(pre, KeyKind::Removable), (ev.0, ev.2));
            }
            let ghost t0 = total as nat;
            total = total + size;
            let cat = classify_entry(name);
            add_bounded(&mut cats, owned(category_name(cat)), size, Ghost(t0), Ghost(i as nat));
            if cat == EntryCategory::Class {
                proof {
                    lemma_sum_push(keyed_files(pre, KeyKind::ClassName), (ev.0, ev.2));
                }
                add_bounded(&mut classes, e.name.clone(), size, Ghost(t0), Ghost(i as nat));
                match detect_clojure_ns(name) {
                    Some(ns) => {
                        proof {
                            lemma_sum_push(keyed_files(pre, KeyKind::Namespace), (ns@, ev.2));
                        }
                        add_bounded(&mut nss, ns, size, Ghost(t0), Ghost(i as nat));
                    },
                    None => {},
                }
            }
            if cat == EntryCategory::Resource && size >= LARGE_RESOURCE_THRESHOLD {
                large.push((e.name.clone(), size));
            }
            add_bounded(&mut pkgs, extract_package(name), size, Ghost(t0), Ghost(i as nat));
            if should_skip(name) {
                shrink_size = shrink_size + size;
                shrink_count = shrink_count + 1;
            }
            proof {
                assert(pairs_view(large@) =~= keyed_files(es.subrange(0, i + 1), KeyKind::LargeResource));
            }
        }
        i += 1;
    }
    assert(es.subrange(0, entries@.len() as int) =~= es);
    // Categories, largest first.
    let sorted_cats = sort_by_size_desc(&cats);
    let mut categories: Vec<CategoryStats> = Vec::new();
    let mut c: usize = 0;
    while c < sorted_cats.len()
        invariant
            c <= sorted_cats@.len(),
            categories@.len() == c,
            stats_views(categories@) == groups_view(sorted_cats@).subrange(0, c as int),
        decreases sorted_cats@.len() - c,
    {
        let g = &sorted_cats[c];
        categories.push(CategoryStats { name: g.0.clone(), size: g.1, file_count: g.2 });
        assert(stats_view(categories@[c as int]) == groups_view(sorted_cats@)[c as int]);
        assert(stats_views(categories@) =~= groups_view(sorted_cats@).subrange(0, c + 1));
        c += 1;
    }
    assert(groups_view(sorted_cats@).subrange(0, sorted_cats@.len() as int) =~= groups_view(sorted_cats@));
    let mut top_packages = sort_by_size_desc(&pkgs);
    keep_top(&mut top_packages);
    let mut clojure_namespaces = sort_by_size_desc(&nss);
    keep_top(&mut clojure_namespaces);
    // Duplicate classes, then large resources.
    let mut dups: Vec<String> = Vec::new();
    let mut d: usize = 0;
    while d < classes.len()
        invariant
            d <= classes@.len(),
            crate::text::views(dups@) == duplicate_messages(groups_view(classes@).subrange(0, d as int)),
        decreases classes@.len() - d,
    {
        proof {
            let t = groups_view(classes@).subrange(0, d + 1);
            assert(t.drop_last() =~= groups_view(classes@).subrange(0, d as int));
        }
        if classes[d].2 > 1 {
            dups.push(duplicate_class_message(classes[d].0.as_str(), classes[d].2));
        }
        assert(crate::text::views(dups@) =~= duplicate_messages(groups_view(classes@).subrange(0, d + 1)));
        d += 1;
    }
    assert(groups_view(classes@).subrange(0, classes@.len() as int) =~= groups_view(classes@));
    let mut issues = sort_messages(dups);
    let ghost sorted_dups = messages_view(issues@);
    let mut l: usize = 0;
    while l < large.len()
        invariant
            l <= large@.len(),
            issues@.len() == sorted_dups.len() + l,
            messages_view(issues@) == sorted_dups + large_messages(pairs_view(large@).subrange(0, l as int)),
        decreases large@.len() - l,
    {
        let human = human_bytes(large[l].1);
        let m = large_resource_message(large[l].0.as_str(), human.as_str());
        let ghost before = messages_view(issues@);
        issues.push(AnalysisIssue { message: m });
        proof {
            assert(messages_view(issues@) =~= before.push(m@));
            let t0 = pairs_view(large@).subrange(0, l + 1);
            assert(t0.last() == (large@[l as int].0@, large@[l as int].1 as nat));
            assert(large_messages(t0) == large_messages(t0.drop_last()).push(m@));
            let t = pairs_view(large@).subrange(0, l + 1);
            assert(t.drop_last() =~= pairs_view(large@).subrange(0, l as int));
            assert(messages_view(issues@) =~= sorted_dups + large_messages(t));
        }
        l += 1;
    }
    assert(pairs_view(large@).subrange(0, large@.len() as int) =~= pairs_view(large@));
    AnalysisReport {
        jar_path: owned(jar_path),
        disk_size,
        total_uncompressed: total,
        entry_count: entries.len(),
        categories,
        top_packages,
        clojure_namespaces,
        shrink_estimate: ShrinkEstimate { removable_size: shrink_size, removable_files: shrink_count },
        issues,
    }
}

/// Three digits of `k < 1000`, with leading zeros.
pub open spec fn pad3(k: nat) -> Seq<char> {
    seq![digit_char(k / 100), digit_char((k / 10) % 10), digit_char(k % 10)]
}

/// Decimal digits grouped by thousands with commas.
pub open spec fn with_commas(n: nat) -> Seq<char>
    decreases n,
{
    if n < 1000 {
        dec_str(n)
    } else {
        with_commas(n / 1000) + ","@ + pad3(n % 1000)
    }
}

fn push_grouped(out: &mut String, n: u64)
    ensures
        final(out)@ == old(out)@ + with_commas(n as nat),
    decreases n,
{
    if n < 1000 {
        push_decimal(out, n);
    } else {
        push_grouped(out, n / 1000);
        push_str(out, ",");
        let k = n % 1000;
        push_char(out, digit(k / 100));
        push_char(out, digit((k / 10) % 10));
        push_char(out, digit(k % 10));
        assert(final(out)@ =~= old(out)@ + with_commas(n as nat));
    }
}

/// A count written with thousands separators (`1234567` gives `1,234,567`).
pub fn format_number(n: usize) -> (r: String)
    ensures
        r@ == with_commas(n as nat),
{
    let mut out = String::new();
    push_grouped(&mut out, n as u64);
    assert(out@ =~= with_commas(n as nat));
    out
}

} // verus!
