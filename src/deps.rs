//! How a deps.edn project is built into an uberjar: reading its build
//! scripts and aliases, and choosing the `clojure` command.
use vstd::prelude::*;
use crate::parser::line_end;
use crate::text::{
    find_from, find_spec, has_infix, has_prefix, is_ws, is_whitespace, owned, push_char, push_str,
    starts_with, str_eq, trim, trimmed, contains,
};

verus! {

/// How the uberjar of a deps.edn project is built.
#[derive(Debug, Clone, PartialEq, Eq)]
pub enum DepsStrategy {
    /// `clojure -T:build <function>`
    ToolsBuild { function: String },
    /// `clojure -T:<alias> <function>`
    ToolsBuildAlias { alias: String, function: String },
    /// `clojure -M:<alias> -m <namespace> <args>`
    MainFunction { alias: String, namespace: String, args: Vec<String> },
    /// `clojure -X:uberjar`
    Uberjar,
}

/// Where a name read after a keyword stops.
pub enum NameRule {
    /// A function name after `(defn `: stops at `[` or `(`.
    Defn,
    /// A namespace after `(ns `: stops at `)` or `(`.
    Ns,
    /// An alias keyword: stops at `{`.
    Alias,
}

pub open spec fn stops(rule: NameRule, c: char) -> bool {
    match rule {
        NameRule::Defn => c == '[' || c == '(',
        NameRule::Ns => c == ')' || c == '(',
        NameRule::Alias => c == '{',
    }
}

/// The longest prefix of `s` without white space or a stop character.
pub open spec fn take_name(s: Seq<char>, rule: NameRule) -> Seq<char>
    decreases s.len(),
{
    if s.len() == 0 || is_ws(s[0]) || stops(rule, s[0]) {
        seq![]
    } else {
        seq![s[0]] + take_name(s.drop_first(), rule)
    }
}

fn stops_exec(rule: &NameRule, c: char) -> (r: bool)
    ensures
        r == stops(*rule, c),
{
    match rule {
        NameRule::Defn => c == '[' || c == '(',
        NameRule::Ns => c == ')' || c == '(',
        NameRule::Alias => c == '{',
    }
}

/// End of the name that starts at `start`.
fn name_end(s: &str, start: usize, rule: &NameRule) -> (r: usize)
    requires
        start <= s@.len(),
    ensures
        start <= r <= s@.len(),
        s@.subrange(start as int, r as int) == take_name(s@.subrange(start as int, s@.len() as int), *rule),
{
    let n = s.unicode_len();
    let mut j: usize = start;
    proof {
        assert(s@.subrange(start as int, start as int) + take_name(s@.subrange(start as int, n as int), *rule)
            =~= take_name(s@.subrange(start as int, n as int), *rule));
    }
    while j < n && !is_whitespace(s.get_char(j)) && !stops_exec(rule, s.get_char(j))
        invariant
            n == s@.len(),
            start <= j <= n,
            take_name(s@.subrange(start as int, n as int), *rule) == s@.subrange(start as int, j as int)
                + take_name(s@.subrange(j as int, n as int), *rule),
        decreases n - j,
    {
        proof {
            let t = s@.subrange(j as int, n as int);
            assert(t.drop_first() =~= s@.subrange(j + 1, n as int));
            assert(s@.subrange(start as int, j + 1) =~= s@.subrange(start as int, j as int) + seq![t[0]]);
        }
        j += 1;
    }
    proof {
        let t = s@.subrange(j as int, n as int);
        assert(take_name(t, *rule) =~= seq![]);
        assert(s@.subrange(start as int, j as int) + seq![] =~= s@.subrange(start as int, j as int));
    }
    j
}

/// The build function a trimmed line defines, if it is `uber` or `uberjar`.
pub open spec fn build_fn_in(t: Seq<char>) -> Option<Seq<char>> {
    if has_prefix(t, "(defn "@) {
        let name = take_name(t.subrange("(defn "@.len() as int, t.len() as int), NameRule::Defn);
        if name == "uber"@ || name == "uberjar"@ {
            Some(name)
        } else {
            None
        }
    } else {
        None
    }
}

/// The namespace a trimmed line declares, if any.
pub open spec fn ns_in(t: Seq<char>) -> Option<Seq<char>> {
    if has_prefix(t, "(ns "@) {
        let name = take_name(t.subrange("(ns "@.len() as int, t.len() as int), NameRule::Ns);
        if name.len() > 0 {
            Some(name)
        } else {
            None
        }
    } else {
        None
    }
}

pub open spec fn line_rule(rule: NameRule, t: Seq<char>) -> Option<Seq<char>> {
    match rule {
        NameRule::Defn => build_fn_in(t),
        NameRule::Ns => ns_in(t),
        NameRule::Alias => None,
    }
}

/// The first line, from the one starting at `i`, whose trimmed text the rule
/// finds a name in. Lines end at `\n`; trimming drops a `\r` before it.
pub open spec fn first_line_match(s: Seq<char>, i: int, rule: NameRule) -> Option<Seq<char>>
    decreases s.len() - i,
{
    if i < 0 || i >= s.len() {
        None
    } else {
        let e = line_end(s, i);
        if e < i || e > s.len() {
            None
        } else {
            match line_rule(rule, trimmed(s.subrange(i, e))) {
                Some(x) => Some(x),
                None => if e < s.len() {
                    first_line_match(s, e + 1, rule)
                } else {
                    None
                },
            }
        }
    }
}

fn line_end_exec(s: &str, i: usize) -> (r: usize)
    requires
        i <= s@.len(),
    ensures
        r == line_end(s@, i as int),
        i <= r <= s@.len(),
{
    let n = s.unicode_len();
    let mut j: usize = i;
    while j < n && s.get_char(j) != '\n'
        invariant
            n == s@.len(),
            i <= j <= n,
            line_end(s@, i as int) == line_end(s@, j as int),
        decreases n - j,
    {
        j += 1;
    }
    j
}

fn rule_on_line(t: &str, rule: &NameRule) -> (r: Option<String>)
    ensures
        match r {
            Some(x) => line_rule(*rule, t@) == Some(x@),
            None => line_rule(*rule, t@) is None,
        },
{
    match rule {
        NameRule::Defn => {
            if !starts_with(t, "(defn ") {
                return None;
            }
            let k = "(defn ".unicode_len();
            let e = name_end(t, k, rule);
            let name = t.substring_char(k, e);
            if str_eq(name, "uber") || str_eq(name, "uberjar") {
                Some(owned(name))
            } else {
                None
            }
        },
        NameRule::Ns => {
            if !starts_with(t, "(ns ") {
                return None;
            }
            let k = "(ns ".unicode_len();
            let e = name_end(t, k, rule);
            if e > k {
                Some(owned(t.substring_char(k, e)))
            } else {
                None
            }
        },
        NameRule::Alias => None,
    }
}

fn scan_lines(content: &str, rule: NameRule) -> (r: Option<String>)
    ensures
        match r {
            Some(x) => first_line_match(content@, 0, rule) == Some(x@),
            None => first_line_match(content@, 0, rule) is None,
        },
{
    let n = content.unicode_len();
    let mut i: usize = 0;
    while i < n
        invariant
            n == content@.len(),
            first_line_match(content@, 0, rule) == first_line_match(content@, i as int, rule),
        decreases n - i,
    {
        let e = line_end_exec(content, i);
        let line = content.substring_char(i, e);
        let t = trim(line);
        match rule_on_line(t, &rule) {
            Some(x) => return Some(x),
            None => {},
        }
        if e >= n {
            return None;
        }
        i = e + 1;
    }
    None
}

/// Finds `(defn uber` or `(defn uberjar` in a Clojure build file.
pub fn detect_build_function(content: &str) -> (r: Option<String>)
    ensures
        match r {
            Some(x) => first_line_match(content@, 0, NameRule::Defn) == Some(x@),
            None => first_line_match(content@, 0, NameRule::Defn) is None,
        },
{
    scan_lines(content, NameRule::Defn)
}

/// The namespace of the first `(ns ...)` form.
pub fn detect_namespace(content: &str) -> (r: Option<String>)
    ensures
        match r {
            Some(x) => first_line_match(content@, 0, NameRule::Ns) == Some(x@),
            None => first_line_match(content@, 0, NameRule::Ns) is None,
        },
{
    scan_lines(content, NameRule::Ns)
}

/// Scans for the `}` that closes the block opened before `i`, skipping
/// braces inside double-quoted strings (a quote after a backslash does not
/// end a string).
pub open spec fn block_end(s: Seq<char>, i: int, depth: nat, in_str: bool) -> Option<int>
    decreases s.len() - i,
{
    if i < 0 || i >= s.len() {
        None
    } else {
        let c = s[i];
        if c == '"' && !in_str {
            block_end(s, i + 1, depth, true)
        } else if c == '"' && in_str {
            if i > 0 && s[i - 1] != '\\' {
                block_end(s, i + 1, depth, false)
            } else {
                block_end(s, i + 1, depth, true)
            }
        } else if c == '{' && !in_str {
            block_end(s, i + 1, depth + 1, in_str)
        } else if c == '}' && !in_str {
            if depth <= 1 {
                Some(i)
            } else {
                block_end(s, i + 1, (depth - 1) as nat, in_str)
            }
        } else {
            block_end(s, i + 1, depth, in_str)
        }
    }
}

/// The balanced `{...}` block that starts at `start`, as (start, end)
/// character positions, both inclusive.
pub open spec fn balanced_block(s: Seq<char>, start: int) -> Option<(int, int)> {
    if start < 0 || start >= s.len() || s[start] != '{' {
        None
    } else {
        match block_end(s, start, 0, false) {
            Some(e) => Some((start, e)),
            None => None,
        }
    }
}

proof fn lemma_block_end_range(s: Seq<char>, i: int, depth: nat, in_str: bool)
    ensures
        block_end(s, i, depth, in_str) matches Some(e) ==> i <= e < s.len() && s[e] == '}',
    decreases s.len() - i,
{
    if 0 <= i < s.len() {
        lemma_block_end_range(s, i + 1, depth, true);
        lemma_block_end_range(s, i + 1, depth, false);
        lemma_block_end_range(s, i + 1, depth + 1, in_str);
        if depth > 1 {
            lemma_block_end_range(s, i + 1, (depth - 1) as nat, in_str);
        }
    }
}

/// Finds the balanced `{...}` block starting at character `start_pos`.
pub fn extract_balanced_block(content: &str, start_pos: usize) -> (r: Option<(usize, usize)>)
    ensures
        match r {
            Some((a, b)) => balanced_block(content@, start_pos as int) == Some((a as int, b as int)),
            None => balanced_block(content@, start_pos as int) is None,
        },
{
    let n = content.unicode_len();
    if start_pos >= n || content.get_char(start_pos) != '{' {
        return None;
    }
    let mut depth: usize = 0;
    let mut in_string = false;
    let mut i: usize = start_pos;
    while i < n
        invariant
            n == content@.len(),
            start_pos < n,
            start_pos <= i <= n,
            depth <= i - start_pos,
            content@[start_pos as int] == '{',
            block_end(content@, start_pos as int, 0, false) == block_end(content@, i as int, depth as nat, in_string),
        decreases n - i,
    {
        let c = content.get_char(i);
        if c == '"' && !in_string {
            in_string = true;
        } else if c == '"' && in_string {
            if i > 0 && content.get_char(i - 1) != '\\' {
                in_string = false;
            }
        } else if c == '{' && !in_string {
            depth += 1;
        } else if c == '}' && !in_string {
            if depth <= 1 {
                return Some((start_pos, i));
            }
            depth -= 1;
        }
        i += 1;
    }
    None
}

/// The strings written in double quotes in `s`, from index `i` on, while in a
/// quote (`in_q`) collecting `cur`; empty strings are left out.
pub open spec fn quoted_from(s: Seq<char>, i: int, in_q: bool, cur: Seq<char>) -> Seq<Seq<char>>
    decreases s.len() - i,
{
    if i < 0 || i >= s.len() {
        seq![]
    } else if s[i] == '"' && !in_q {
        quoted_from(s, i + 1, true, seq![])
    } else if s[i] == '"' && in_q {
        if cur.len() > 0 {
            seq![cur] + quoted_from(s, i + 1, false, cur)
        } else {
            quoted_from(s, i + 1, false, cur)
        }
    } else if in_q {
        quoted_from(s, i + 1, in_q, cur.push(s[i]))
    } else {
        quoted_from(s, i + 1, in_q, cur)
    }
}

/// The paths listed in `:extra-paths [...]`.
pub open spec fn extra_paths_of(b: Seq<char>) -> Seq<Seq<char>> {
    let ep = find_spec(b, ":extra-paths"@, 0);
    if ep < 0 {
        seq![]
    } else {
        let open = find_spec(b, "["@, ep + ":extra-paths"@.len());
        if open < 0 {
            seq![]
        } else {
            let close = find_spec(b, "]"@, open + 1);
            if close < 0 {
                seq![]
            } else {
                quoted_from(b.subrange(open + 1, close), 0, false, seq![])
            }
        }
    }
}

/// Extracts the list of strings from `:extra-paths ["path1" "path2"]`.
pub fn extract_extra_paths(alias_block: &str) -> (r: Vec<String>)
    ensures
        crate::text::views(r@) == extra_paths_of(alias_block@),
{
    let mut paths: Vec<String> = Vec::new();
    let key = ":extra-paths";
    let _n = alias_block.unicode_len();
    proof {
        reveal_strlit("[");
    }
    let ep = match find_from(alias_block, key, 0) {
        Some(p) => p,
        None => return paths,
    };
    let open = match find_from(alias_block, "[", ep + key.unicode_len()) {
        Some(p) => p,
        None => return paths,
    };
    let close = match find_from(alias_block, "]", open + 1) {
        Some(p) => p,
        None => return paths,
    };
    let inside = alias_block.substring_char(open + 1, close);
    let m = inside.unicode_len();
    let mut in_quote = false;
    let mut current = String::new();
    let mut i: usize = 0;
    while i < m
        invariant
            m == inside@.len(),
            i <= m,
            crate::text::views(paths@) + quoted_from(inside@, i as int, in_quote, current@)
                == quoted_from(inside@, 0, false, seq![]),
        decreases m - i,
    {
        let c = inside.get_char(i);
        let ghost before = crate::text::views(paths@);
        if c == '"' && !in_quote {
            in_quote = true;
            current = String::new();
        } else if c == '"' && in_quote {
            in_quote = false;
            if current.as_str().unicode_len() > 0 {
                paths.push(current.clone());
                assert(crate::text::views(paths@) =~= before.push(current@));
                assert(before.push(current@) + quoted_from(inside@, i + 1, false, current@) =~= before
                    + (seq![current@] + quoted_from(inside@, i + 1, false, current@)));
            }
        } else if in_quote {
            push_char(&mut current, c);
        }
        i += 1;
    }
    assert(crate::text::views(paths@) + seq![] =~= crate::text::views(paths@));
    paths
}

/// An alias of deps.edn that depends on tools.build.
#[derive(Debug)]
pub struct ParsedAlias {
    pub name: String,
    pub has_ns_default: bool,
    pub extra_paths: Vec<String>,
}

pub type AliasView = (Seq<char>, bool, Seq<Seq<char>>);

pub open spec fn alias_view(a: ParsedAlias) -> AliasView {
    (a.name@, a.has_ns_default, crate::text::views(a.extra_paths@))
}

pub open spec fn alias_views(v: Seq<ParsedAlias>) -> Seq<AliasView> {
    v.map_values(|a: ParsedAlias| alias_view(a))
}

/// The next search position: `next`, which is always past `pos` and within
/// the text.
pub open spec fn next_pos(pos: int, next: int, len: int) -> int {
    if pos < next <= len {
        next
    } else {
        pos + 1
    }
}

/// The tools.build aliases of an aliases map `b`, searching from `pos`: each
/// `:name` keyword (without `/`) followed by a balanced `{...}` block that
/// mentions `tools.build`.
pub open spec fn aliases_in(b: Seq<char>, pos: int) -> Seq<AliasView>
    decreases b.len() - pos,
{
    if pos < 0 || pos >= b.len() {
        seq![]
    } else {
        let colon = find_spec(b, ":"@, pos);
        if colon < 0 || colon + 1 > b.len() {
            seq![]
        } else {
            let name = take_name(b.subrange(colon + 1, b.len() as int), NameRule::Alias);
            if name.len() == 0 || has_infix(name, "/"@) {
                aliases_in(b, next_pos(pos, colon + 1, b.len() as int))
            } else {
                let after = colon + 1 + name.len();
                let ms = find_spec(b, "{"@, after);
                if ms < 0 {
                    aliases_in(b, next_pos(pos, after, b.len() as int))
                } else {
                    match balanced_block(b, ms) {
                        None => aliases_in(b, next_pos(pos, ms + 1, b.len() as int)),
                        Some((s0, e)) => {
                            let rest = aliases_in(b, next_pos(pos, e + 1, b.len() as int));
                            if 0 <= s0 <= e < b.len() && has_infix(b.subrange(s0, e + 1), "tools.build"@) {
                                let blk = b.subrange(s0, e + 1);
                                seq![(name, has_infix(blk, ":ns-default"@), extra_paths_of(blk))] + rest
                            } else {
                                rest
                            }
                        },
                    }
                }
            }
        }
    }
}

/// The aliases of a deps.edn text that depend on tools.build, in order.
pub open spec fn tools_build_aliases(c: Seq<char>) -> Seq<AliasView> {
    let ap = find_spec(c, ":aliases"@, 0);
    if ap < 0 {
        seq![]
    } else {
        let ms = find_spec(c, "{"@, ap + ":aliases"@.len());
        if ms < 0 {
            seq![]
        } else {
            match balanced_block(c, ms) {
                None => seq![],
                Some((s0, e)) => if 0 <= s0 <= e < c.len() {
                    aliases_in(c.subrange(s0, e + 1), 0)
                } else {
                    seq![]
                },
            }
        }
    }
}

fn scan_aliases(block: &str) -> (r: Vec<ParsedAlias>)
    ensures
        alias_views(r@) == aliases_in(block@, 0),
{
    let n = block.unicode_len();
    proof {
        reveal_strlit(":");
        reveal_strlit("{");
    }
    let mut result: Vec<ParsedAlias> = Vec::new();
    let mut pos: usize = 0;
    assert(alias_views(result@) + aliases_in(block@, 0) =~= aliases_in(block@, 0));
    while pos < n
        invariant
            n == block@.len(),
            pos <= n,
            ":"@.len() == 1,
            "{"@.len() == 1,
            alias_views(result@) + aliases_in(block@, pos as int) == aliases_in(block@, 0),
        ensures
            alias_views(result@) == aliases_in(block@, 0),
        decreases n - pos,
    {
        let ghost before = alias_views(result@);
        let colon = match find_from(block, ":", pos) {
            Some(c) => c,
            None => {
                assert(aliases_in(block@, pos as int) =~= seq![]);
                assert(alias_views(result@) =~= aliases_in(block@, 0));
                break;
            },
        };
        let name_start = colon + 1;
        let e = name_end(block, name_start, &NameRule::Alias);
        let name = block.substring_char(name_start, e);
        if e == name_start || contains(name, "/") {
            pos = name_start;
            continue;
        }
        let after = e;
        let ms = match find_from(block, "{", after) {
            Some(m) => m,
            None => {
                pos = after;
                continue;
            },
        };
        match extract_balanced_block(block, ms) {
            None => {
                pos = ms + 1;
            },
            Some((s0, end)) => {
                proof {
                    lemma_block_end_range(block@, ms as int, 0, false);
                }
                pos = end + 1;
                let blk = block.substring_char(s0, end + 1);
                if contains(blk, "tools.build") {
                    let has_ns_default = contains(blk, ":ns-default");
                    let extra_paths = extract_extra_paths(blk);
                    result.push(ParsedAlias { name: owned(name), has_ns_default, extra_paths });
                    assert(alias_views(result@) =~= before.push((name@, has_ns_default, crate::text::views(extra_paths@))));
                    assert(before.push((name@, has_ns_default, crate::text::views(extra_paths@)))
                        + aliases_in(block@, pos as int) =~= before + (seq![(name@, has_ns_default, crate::text::views(extra_paths@))]
                        + aliases_in(block@, pos as int)));
                }
            },
        }
    }
    result
}

/// Finds the aliases of a deps.edn text that depend on tools.build.
pub fn parse_aliases_with_tools_build(deps_content: &str) -> (r: Vec<ParsedAlias>)
    ensures
        alias_views(r@) == tools_build_aliases(deps_content@),
{
    let n = deps_content.unicode_len();
    let key = ":aliases";
    let ap = match find_from(deps_content, key, 0) {
        Some(p) => p,
        None => return Vec::new(),
    };
    let ms = match find_from(deps_content, "{", ap + key.unicode_len()) {
        Some(m) => m,
        None => return Vec::new(),
    };
    match extract_balanced_block(deps_content, ms) {
        None => Vec::new(),
        Some((s0, e)) => {
            proof {
                lemma_block_end_range(deps_content@, ms as int, 0, false);
            }
            let block = deps_content.substring_char(s0, e + 1);
            scan_aliases(block)
        },
    }
}

/// `f` relative to the directory `b`, when `b` is a leading part of it;
/// otherwise `f` itself.
pub open spec fn relative_to(f: Seq<char>, b: Seq<char>) -> Seq<char> {
    if b.len() > 0 && has_prefix(f, b) {
        if f.len() == b.len() {
            seq![]
        } else if b.last() == '/' {
            f.subrange(b.len() as int, f.len() as int)
        } else if f[b.len() as int] == '/' {
            f.subrange(b.len() as int + 1, f.len() as int)
        } else {
            f
        }
    } else {
        f
    }
}

/// Index of the last `c` in `s`, or -1.
pub open spec fn last_index(s: Seq<char>, c: char) -> int
    decreases s.len(),
{
    if s.len() == 0 {
        -1
    } else if s.last() == c {
        s.len() - 1
    } else {
        last_index(s.drop_last(), c)
    }
}

/// `p` without the extension of its last component (a leading dot does not
/// start an extension).
pub open spec fn without_extension(p: Seq<char>) -> Seq<char> {
    let k = crate::text::base_name(p);
    let start = p.len() - k.len();
    let d = last_index(k, '.');
    if d >= 1 {
        p.subrange(0, start + d)
    } else {
        p
    }
}

/// Namespace characters for path characters: `/` to `.`, `_` to `-`.
pub open spec fn ns_char(c: char) -> char {
    if c == '/' {
        '.'
    } else if c == '_' {
        '-'
    } else {
        c
    }
}

/// The namespace a Clojure file at `f` has below the source root `b`.
pub open spec fn namespace_of_path(f: Seq<char>, b: Seq<char>) -> Seq<char> {
    without_extension(relative_to(f, b)).map_values(|c: char| ns_char(c))
}

proof fn lemma_last_index_range(s: Seq<char>, c: char)
    ensures
        -1 <= last_index(s, c) < s.len(),
    decreases s.len(),
{
    if s.len() > 0 {
        lemma_last_index_range(s.drop_last(), c);
    }
}

/// A path shown relative to a directory when it lies below it.
pub fn relative_path(f: &str, b: &str) -> (r: String)
    ensures
        r@ == relative_to(f@, b@),
{
    let n = f.unicode_len();
    let m = b.unicode_len();
    if m > 0 && starts_with(f, b) {
        if n == m {
            return String::new();
        } else if b.get_char(m - 1) == '/' {
            return owned(f.substring_char(m, n));
        } else if f.get_char(m) == '/' {
            return owned(f.substring_char(m + 1, n));
        }
    }
    owned(f)
}

fn last_index_of(s: &str, c: char) -> (r: Option<usize>)
    ensures
        match r {
            Some(i) => last_index(s@, c) == i as int,
            None => last_index(s@, c) == -1,
        },
{
    let n = s.unicode_len();
    let mut i: usize = n;
    assert(s@.subrange(0, n as int) =~= s@);
    while i > 0
        invariant
            n == s@.len(),
            i <= n,
            last_index(s@, c) == last_index(s@.subrange(0, i as int), c),
        decreases i,
    {
        let ghost t = s@.subrange(0, i as int);
        proof {
            assert(t.drop_last() =~= s@.subrange(0, i - 1));
        }
        if s.get_char(i - 1) == c {
            return Some(i - 1);
        }
        i -= 1;
    }
    None
}

proof fn lemma_base_name_suffix(p: Seq<char>)
    ensures
        crate::text::base_name(p).len() <= p.len(),
        p.subrange(p.len() - crate::text::base_name(p).len(), p.len() as int) == crate::text::base_name(p),
    decreases p.len(),
{
    if p.len() > 0 {
        lemma_base_name_suffix(p.drop_last());
        if p.last() != '/' {
            let q = p.drop_last();
            let b = crate::text::base_name(q);
            assert(p.subrange(p.len() - b.len() - 1, p.len() as int) =~= q.subrange(q.len() - b.len(), q.len() as int).push(p.last()));
        } else {
            assert(p.subrange(p.len() as int, p.len() as int) =~= seq![]);
        }
    } else {
        assert(p.subrange(0, 0) =~= p);
    }
}

/// Converts a file path below a source root into a Clojure namespace
/// (`dev/com/foo/build.clj` below `dev` gives `com.foo.build`).
pub fn path_to_namespace(file_path: &str, base_path: &str) -> (r: String)
    ensures
        r@ == namespace_of_path(file_path@, base_path@),
{
    let n = file_path.unicode_len();
    let m = base_path.unicode_len();
    let mut rel = file_path;
    if m > 0 && starts_with(file_path, base_path) {
        if n == m {
            rel = file_path.substring_char(n, n);
        } else if base_path.get_char(m - 1) == '/' {
            rel = file_path.substring_char(m, n);
        } else if file_path.get_char(m) == '/' {
            rel = file_path.substring_char(m + 1, n);
        }
    }
    assert(rel@ == relative_to(file_path@, base_path@));
    let k = crate::text::base_name_start(rel);
    let len = rel.unicode_len();
    let comp = rel.substring_char(k, len);
    proof {
        lemma_base_name_suffix(rel@);
        lemma_last_index_range(comp@, '.');
    }
    let stem = match last_index_of(comp, '.') {
        Some(d) => if d >= 1 {
            rel.substring_char(0, k + d)
        } else {
            rel
        },
        None => rel,
    };
    assert(stem@ == without_extension(rel@));
    let sl = stem.unicode_len();
    let mut out = String::new();
    let mut i: usize = 0;
    while i < sl
        invariant
            sl == stem@.len(),
            i <= sl,
            out@ == stem@.subrange(0, i as int).map_values(|c: char| ns_char(c)),
        decreases sl - i,
    {
        let c = stem.get_char(i);
        let d = if c == '/' {
            '.'
        } else if c == '_' {
            '-'
        } else {
            c
        };
        push_char(&mut out, d);
        assert(stem@.subrange(0, i + 1) =~= stem@.subrange(0, i as int).push(c));
        i += 1;
        assert(out@ =~= stem@.subrange(0, i as int).map_values(|c: char| ns_char(c)));
    }
    assert(stem@.subrange(0, sl as int) =~= stem@);
    out
}

/// The command-line arguments of a strategy, as text.
pub open spec fn strategy_args(s: DepsStrategy) -> Seq<Seq<char>> {
    match s {
        DepsStrategy::ToolsBuild { function } => seq!["-T:build"@, function@],
        DepsStrategy::ToolsBuildAlias { alias, function } => seq!["-T:"@ + alias@, function@],
        DepsStrategy::MainFunction { alias, namespace, args } => seq!["-M:"@ + alias@, "-m"@, namespace@]
            + crate::text::views(args@),
        DepsStrategy::Uberjar => seq!["-X:uberjar"@],
    }
}

fn prefixed(prefix: &str, s: &str) -> (r: String)
    ensures
        r@ == prefix@ + s@,
{
    let mut r = owned(prefix);
    push_str(&mut r, s);
    r
}

impl DepsStrategy {
    /// Arguments of the `clojure` command for this strategy.
    pub fn to_args(&self) -> (r: Vec<String>)
        ensures
            crate::text::views(r@) == strategy_args(*self),
    {
        match self {
            DepsStrategy::ToolsBuild { function } => {
                let r = vec![owned("-T:build"), function.clone()];
                assert(crate::text::views(r@) =~= strategy_args(*self));
                r
            },
            DepsStrategy::ToolsBuildAlias { alias, function } => {
                let r = vec![prefixed("-T:", alias.as_str()), function.clone()];
                assert(crate::text::views(r@) =~= strategy_args(*self));
                r
            },
            DepsStrategy::MainFunction { alias, namespace, args } => {
                let mut r = vec![prefixed("-M:", alias.as_str()), owned("-m"), namespace.clone()];
                let ghost head = crate::text::views(r@);
                let mut i: usize = 0;
                while i < args.len()
                    invariant
                        i <= args@.len(),
                        crate::text::views(r@) == head + crate::text::views(args@).subrange(0, i as int),
                    decreases args@.len() - i,
                {
                    let ghost before = crate::text::views(r@);
                    let x = args[i].clone();
                    r.push(x);
                    assert(crate::text::views(r@) =~= before.push(args@[i as int]@));
                    assert(crate::text::views(r@) =~= head + crate::text::views(args@).subrange(0, i + 1));
                    i += 1;
                }
                assert(crate::text::views(args@).subrange(0, args@.len() as int) =~= crate::text::views(args@));
                assert(head =~= seq!["-M:"@ + alias@, "-m"@, namespace@]);
                r
            },
            DepsStrategy::Uberjar => {
                let r = vec![owned("-X:uberjar")];
                assert(crate::text::views(r@) =~= strategy_args(*self));
                r
            },
        }
    }
}

/// What a Clojure file under an alias's extra paths says about building.
#[derive(Debug)]
pub struct BuildFileInfo {
    pub namespace: String,
    pub has_uber_fn: Option<String>,
    pub has_main_fn: bool,
    pub has_b_uber_call: bool,
}

pub type BuildFileView = (Seq<char>, Option<Seq<char>>, bool, bool);

pub open spec fn opt_text(o: Option<String>) -> Option<Seq<char>> {
    match o {
        Some(s) => Some(s@),
        None => None,
    }
}

pub open spec fn build_file_view(b: BuildFileInfo) -> BuildFileView {
    (b.namespace@, opt_text(b.has_uber_fn), b.has_main_fn, b.has_b_uber_call)
}

pub open spec fn build_file_views(v: Seq<BuildFileInfo>) -> Seq<BuildFileView> {
    v.map_values(|b: BuildFileInfo| build_file_view(b))
}

pub open spec fn nested_file_views(v: Seq<Vec<BuildFileInfo>>) -> Seq<Seq<BuildFileView>> {
    v.map_values(|w: Vec<BuildFileInfo>| build_file_views(w@))
}

/// Facts about a build file at `file_path` below the source root `base_path`.
pub fn analyze_build_file(content: &str, file_path: &str, base_path: &str) -> (r: BuildFileInfo)
    ensures
        r.namespace@ == match first_line_match(content@, 0, NameRule::Ns) {
            Some(n) => n,
            None => namespace_of_path(file_path@, base_path@),
        },
        opt_text(r.has_uber_fn) == first_line_match(content@, 0, NameRule::Defn),
        r.has_main_fn == has_infix(content@, "(defn -main"@),
        r.has_b_uber_call == (has_infix(content@, "b/uber"@) || has_infix(content@, "tools.build.api/uber"@)),
{
    let namespace = match detect_namespace(content) {
        Some(n) => n,
        None => path_to_namespace(file_path, base_path),
    };
    BuildFileInfo {
        namespace,
        has_uber_fn: detect_build_function(content),
        has_main_fn: contains(content, "(defn -main"),
        has_b_uber_call: contains(content, "b/uber") || contains(content, "tools.build.api/uber"),
    }
}

/// The project's root build script, as far as it could be read.
pub enum BuildScript {
    Absent,
    Unreadable,
    Text(String),
}

pub type StrategyView = (nat, Seq<char>, Seq<char>, Seq<Seq<char>>);

pub open spec fn strategy_view(s: DepsStrategy) -> StrategyView {
    match s {
        DepsStrategy::ToolsBuild { function } => (0, function@, seq![], seq![]),
        DepsStrategy::ToolsBuildAlias { alias, function } => (1, alias@, function@, seq![]),
        DepsStrategy::MainFunction { alias, namespace, args } => (2, alias@, namespace@, crate::text::views(args@)),
        DepsStrategy::Uberjar => (3, seq![], seq![], seq![]),
    }
}

/// The choice a build file under alias `alias` makes, from file `j` on: a
/// `-main` that calls `b/uber`, or else an uber function.
pub open spec fn files_choice(alias: Seq<char>, files: Seq<BuildFileView>, j: int) -> Option<StrategyView>
    decreases files.len() - j,
{
    if j < 0 || j >= files.len() {
        None
    } else {
        let f = files[j];
        if f.2 && f.3 {
            Some((2, alias, f.0, seq!["--uberjar"@]))
        } else {
            match f.1 {
                Some(u) => Some((1, alias, u, seq![])),
                None => files_choice(alias, files, j + 1),
            }
        }
    }
}

/// The choice the tools.build aliases make, from alias `i` on.
pub open spec fn alias_choice(aliases: Seq<AliasView>, files: Seq<Seq<BuildFileView>>, i: int) -> Option<StrategyView>
    decreases aliases.len() - i,
{
    if i < 0 || i >= aliases.len() {
        None
    } else {
        let a = aliases[i];
        if a.1 {
            Some((1, a.0, "uber"@, seq![]))
        } else {
            let here = if a.2.len() > 0 && i < files.len() {
                files_choice(a.0, files[i], 0)
            } else {
                None
            };
            match here {
                Some(x) => Some(x),
                None => alias_choice(aliases, files, i + 1),
            }
        }
    }
}

/// The build strategy of a deps.edn project: the root build script's uber
/// function; else an alias with a default namespace, or one whose extra
/// paths hold a build file; else a `:uberjar` alias; else `-T:build uber`.
/// `alias_files[i]` are the build files under the extra paths of the `i`-th
/// tools.build alias.
pub open spec fn deps_strategy(build: BuildScript, deps: Option<Seq<char>>, files: Seq<Seq<BuildFileView>>) -> StrategyView {
    match build {
        BuildScript::Text(c) => match first_line_match(c@, 0, NameRule::Defn) {
            Some(f) => (0, f, seq![], seq![]),
            None => (0, "uber"@, seq![], seq![]),
        },
        BuildScript::Unreadable => (0, "uber"@, seq![], seq![]),
        BuildScript::Absent => match deps {
            Some(d) => match alias_choice(tools_build_aliases(d), files, 0) {
                Some(x) => x,
                None => if has_infix(d, ":uberjar"@) {
                    (3, seq![], seq![], seq![])
                } else {
                    (0, "uber"@, seq![], seq![])
                },
            },
            None => (0, "uber"@, seq![], seq![]),
        },
    }
}

fn uber_default() -> (r: DepsStrategy)
    ensures
        strategy_view(r) == (0nat, "uber"@, Seq::<char>::empty(), Seq::<Seq<char>>::empty()),
{
    DepsStrategy::ToolsBuild { function: owned("uber") }
}

/// Chooses how a deps.edn project is built.
pub fn select_deps_strategy(build_clj: &BuildScript, deps_content: Option<&str>, alias_files: &Vec<Vec<BuildFileInfo>>) -> (r: DepsStrategy)
    ensures
        strategy_view(r) == deps_strategy(*build_clj, match deps_content {
            Some(d) => Some(d@),
            None => None,
        }, nested_file_views(alias_files@)),
{
    match build_clj {
        BuildScript::Text(c) => {
            return match detect_build_function(c.as_str()) {
                Some(f) => DepsStrategy::ToolsBuild { function: f },
                None => uber_default(),
            };
        },
        BuildScript::Unreadable => {
            return uber_default();
        },
        BuildScript::Absent => {},
    }
    let d = match deps_content {
        Some(d) => d,
        None => return uber_default(),
    };
    let aliases = parse_aliases_with_tools_build(d);
    let ghost av = alias_views(aliases@);
    let ghost fv = nested_file_views(alias_files@);
    let mut i: usize = 0;
    while i < aliases.len()
        invariant
            *build_clj is Absent,
            deps_content == Some(d),
            av == tools_build_aliases(d@),
            i <= aliases@.len(),
            av == alias_views(aliases@),
            fv == nested_file_views(alias_files@),
            alias_choice(av, fv, 0) == alias_choice(av, fv, i as int),
        decreases aliases@.len() - i,
    {
        let a = &aliases[i];
        assert(av[i as int] == alias_view(*a));
        if a.has_ns_default {
            return DepsStrategy::ToolsBuildAlias { alias: a.name.clone(), function: owned("uber") };
        }
        if a.extra_paths.len() > 0 && i < alias_files.len() {
            let files = &alias_files[i];
            let ghost bv = build_file_views(files@);
            assert(fv[i as int] == bv);
            let mut j: usize = 0;
            while j < files.len()
                invariant
                    *build_clj is Absent,
                    deps_content == Some(d),
                    av == tools_build_aliases(d@),
                    i < aliases@.len(),
                    i < alias_files@.len(),
                    av == alias_views(aliases@),
                    fv == nested_file_views(alias_files@),
                    alias_choice(av, fv, 0) == alias_choice(av, fv, i as int),
                    av[i as int] == alias_view(*a),
                    !a.has_ns_default,
                    a.extra_paths@.len() > 0,
                    fv[i as int] == bv,
                    j <= files@.len(),
                    bv == build_file_views(files@),
                    files_choice(a.name@, bv, 0) == files_choice(a.name@, bv, j as int),
                decreases files@.len() - j,
            {
                let f = &files[j];
                assert(bv[j as int] == build_file_view(*f));
                if f.has_main_fn && f.has_b_uber_call {
                    let r = DepsStrategy::MainFunction {
                        alias: a.name.clone(),
                        namespace: f.namespace.clone(),
                        args: vec![owned("--uberjar")],
                    };
                    assert(strategy_view(r).3 =~= seq!["--uberjar"@]);
                    return r;
                }
                match &f.has_uber_fn {
                    Some(u) => {
                        return DepsStrategy::ToolsBuildAlias { alias: a.name.clone(), function: u.clone() };
                    },
                    None => {},
                }
                j += 1;
            }
        }
        i += 1;
    }
    if contains(d, ":uberjar") {
        DepsStrategy::Uberjar
    } else {
        uber_default()
    }
}

/// A `.jar` file found in a build output directory.
#[derive(Debug)]
pub struct JarCandidate {
    pub path: String,
    pub file_name: String,
    /// Modification time in nanoseconds since the epoch, when known.
    pub modified: Option<u128>,
}

/// Names that mark a fat archive.
pub open spec fn is_fat_name(n: Seq<char>) -> bool {
    has_infix(n, "standalone"@) || has_infix(n, "uber"@) || has_infix(n, "jar-with-dependencies"@)
        || has_infix(n, "-all"@) || has_infix(n, "-fat"@)
}

/// Names that mark an archive that is not the application.
pub open spec fn is_side_name(n: Seq<char>) -> bool {
    has_infix(n, "sources"@) || has_infix(n, "javadoc"@) || has_infix(n, "-plain"@) || has_infix(
        n,
        ".original"@,
    )
}

pub open spec fn is_jar_name(n: Seq<char>) -> bool {
    crate::text::has_suffix(n, ".jar"@) && n.len() > 4
}

/// `a` was modified no earlier than `b`; an unknown time is the earliest.
pub open spec fn not_older(a: Option<u128>, b: Option<u128>) -> bool {
    match (a, b) {
        (_, None) => true,
        (None, Some(_)) => false,
        (Some(x), Some(y)) => x >= y,
    }
}

/// The best of the candidates that pass `fat`/`side`: the most recently
/// modified; among equals the later one in the list.
pub open spec fn best_index(c: Seq<JarCandidate>, fat: bool) -> int
    decreases c.len(),
{
    if c.len() == 0 {
        -1
    } else {
        let p = best_index(c.drop_last(), fat);
        let x = c.last();
        let ok = is_jar_name(x.file_name@) && if fat {
            is_fat_name(x.file_name@)
        } else {
            !is_side_name(x.file_name@)
        };
        if ok && (p < 0 || not_older(x.modified, c[p].modified)) {
            c.len() - 1
        } else {
            p
        }
    }
}

/// The archive a build produced: the newest fat archive, else the newest
/// archive that is not sources, docs or a thin variant.
pub open spec fn best_jar_index(c: Seq<JarCandidate>) -> int {
    if best_index(c, true) >= 0 {
        best_index(c, true)
    } else {
        best_index(c, false)
    }
}

proof fn lemma_best_index_range(c: Seq<JarCandidate>, fat: bool)
    ensures
        -1 <= best_index(c, fat) < c.len(),
    decreases c.len(),
{
    if c.len() > 0 {
        lemma_best_index_range(c.drop_last(), fat);
    }
}

fn newest(c: &Vec<JarCandidate>, fat: bool) -> (r: Option<usize>)
    ensures
        match r {
            Some(i) => best_index(c@, fat) == i,
            None => best_index(c@, fat) == -1,
        },
{
    let mut best: Option<usize> = None;
    let mut i: usize = 0;
    while i < c.len()
        invariant
            i <= c@.len(),
            match best {
                Some(b) => best_index(c@.subrange(0, i as int), fat) == b && b < i,
                None => best_index(c@.subrange(0, i as int), fat) == -1,
            },
        decreases c@.len() - i,
    {
        let x = &c[i];
        let name = x.file_name.as_str();
        let jar = crate::text::ends_with(name, ".jar") && name.unicode_len() > 4;
        let ok = jar && if fat {
            contains(name, "standalone") || contains(name, "uber") || contains(name, "jar-with-dependencies")
                || contains(name, "-all") || contains(name, "-fat")
        } else {
            !(contains(name, "sources") || contains(name, "javadoc") || contains(name, "-plain") || contains(
                name,
                ".original",
            ))
        };
        proof {
            let t = c@.subrange(0, i + 1);
            assert(t.drop_last() =~= c@.subrange(0, i as int));
            assert(t.last() == *x);
            match best {
                Some(b) => assert(t[b as int] == c@[b as int]),
                None => {},
            }
        }
        let take = ok && match best {
            None => true,
            Some(b) => match (x.modified, c[b].modified) {
                (_, None) => true,
                (None, Some(_)) => false,
                (Some(p), Some(q)) => p >= q,
            },
        };
        if take {
            best = Some(i);
        }
        i += 1;
    }
    assert(c@.subrange(0, c@.len() as int) =~= c@);
    best
}

/// Picks the archive a build produced among the `.jar` files found.
pub fn find_best_jar(candidates: &Vec<JarCandidate>) -> (r: Option<usize>)
    ensures
        match r {
            Some(i) => best_jar_index(candidates@) == i,
            None => best_jar_index(candidates@) == -1,
        },
{
    match newest(candidates, true) {
        Some(i) => Some(i),
        None => newest(candidates, false),
    }
}

} // verus!
