//! Regular-expression matching, through the `regex` crate.
use vstd::prelude::*;

verus! {

/// Capture groups of one match: group 0 is the whole match; a group that did
/// not take part is `None`.
pub type GroupsView = Seq<Option<Seq<char>>>;

/// The capture groups of the first match of `pattern` in `text`, if any (none
/// when the pattern is not a valid expression).
pub uninterp spec fn regex_captures(pattern: Seq<char>, text: Seq<char>) -> Option<GroupsView>;

/// The capture groups of the successive non-overlapping matches of `pattern`
/// in `text` (none when the pattern is not a valid expression).
pub uninterp spec fn regex_captures_all(pattern: Seq<char>, text: Seq<char>) -> Seq<GroupsView>;

pub open spec fn group_view(g: Option<String>) -> Option<Seq<char>> {
    match g {
        Some(s) => Some(s@),
        None => None,
    }
}

pub open spec fn groups_view(v: Seq<Option<String>>) -> GroupsView {
    v.map_values(|g: Option<String>| group_view(g))
}

pub open spec fn all_groups_view(v: Seq<Vec<Option<String>>>) -> Seq<GroupsView> {
    v.map_values(|m: Vec<Option<String>>| groups_view(m@))
}

/// Relies on `regex::Regex::new` and `Regex::captures`: the groups of the
/// leftmost-first match, which depend on the pattern and the text alone.
#[verifier::external_body]
pub fn captures(pattern: &str, text: &str) -> (r: Option<Vec<Option<String>>>)
    ensures
        match r {
            Some(v) => regex_captures(pattern@, text@) == Some(groups_view(v@)),
            None => regex_captures(pattern@, text@) is None,
        },
{
    let re = match regex::Regex::new(pattern) {
        Ok(re) => re,
        Err(_) => return None,
    };
    re.captures(text).map(|c| c.iter().map(|m| m.map(|m| m.as_str().to_string())).collect())
}

/// Relies on `regex::Regex::new` and `Regex::captures_iter`: the groups of the
/// successive non-overlapping matches, which depend on the pattern and the
/// text alone.
#[verifier::external_body]
pub fn captures_all(pattern: &str, text: &str) -> (r: Vec<Vec<Option<String>>>)
    ensures
        all_groups_view(r@) == regex_captures_all(pattern@, text@),
{
    let re = match regex::Regex::new(pattern) {
        Ok(re) => re,
        Err(_) => return Vec::new(),
    };
    re.captures_iter(text).map(|c| c.iter().map(|m| m.map(|m| m.as_str().to_string())).collect()).collect()
}

/// Group `k`, or empty when it is absent.
pub open spec fn group_text(g: GroupsView, k: int) -> Seq<char> {
    if 0 <= k < g.len() {
        match g[k] {
            Some(s) => s,
            None => seq![],
        }
    } else {
        seq![]
    }
}

/// Group `k`, if present.
pub open spec fn group_opt(g: GroupsView, k: int) -> Option<Seq<char>> {
    if 0 <= k < g.len() {
        g[k]
    } else {
        None
    }
}

/// Group `k` of a match, or empty.
pub fn group(g: &Vec<Option<String>>, k: usize) -> (r: String)
    ensures
        r@ == group_text(groups_view(g@), k as int),
{
    if k < g.len() {
        match &g[k] {
            Some(s) => s.clone(),
            None => String::new(),
        }
    } else {
        String::new()
    }
}

/// Group `k` of a match, if present.
pub fn group_if(g: &Vec<Option<String>>, k: usize) -> (r: Option<String>)
    ensures
        group_view(r) == group_opt(groups_view(g@), k as int),
{
    if k < g.len() {
        match &g[k] {
            Some(s) => Some(s.clone()),
            None => None,
        }
    } else {
        None
    }
}

} // verus!
