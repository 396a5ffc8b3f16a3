//! Reading compiler diagnostics out of build tool output.
use vstd::prelude::*;
use crate::config::{join_path, join_path_str, BuildSystem};
use crate::diagnostic::{context_view, diag_view, rendered, render_with, ContextView, DiagView, Diagnostic, Severity, SourceContext};
use crate::download::{parse_decimal_u64, parse_u64};
use crate::pattern::{captures, group, group_if, group_opt, group_text, group_view, groups_view, GroupsView};
use crate::text::{has_prefix, owned, push_str, starts_with, str_eq, trim, trimmed, views};

verus! {

pub const SYNTAX_RE: &'static str = r"(?i)(?:Syntax error|Compiler Exception).* at \(([^:]+):(\d+):(\d+)\)";
pub const SYMBOL_RE: &'static str = r"Unable to resolve symbol:\s*(\S+)";
pub const COMPILER_EX_RE: &'static str = r"CompilerException.*?(?:compiling|at)\s*\(([^:]+):(\d+):(\d+)\)";
pub const CAUSED_BY_RE: &'static str = r"Caused by:.*?:\s*(.+)";
pub const MAVEN_ERROR_RE: &'static str = r"\[ERROR\]\s+(/[^:]+):\[(\d+),(\d+)\]\s+(.*)";
pub const MAVEN_WARNING_RE: &'static str = r"\[WARNING\]\s+(/[^:]+):\[(\d+),(\d+)\]\s+(.*)";
pub const JAVAC_RE: &'static str = r"([^\s:]+\.java):(\d+):\s*(error|warning):\s+(.+)";
pub const KOTLIN_RE: &'static str = r"([ew]):\s*file://(/[^:]+):(\d+):(\d+)\s+(.+)";

// ---------------------------------------------------------------------------
// Lines
/// End of the line starting at `i`: the next `\n`, or the end.
pub open spec fn line_end(s: Seq<char>, i: int) -> int
    decreases s.len() - i,
{
    if i < 0 || i >= s.len() {
        s.len() as int
    } else if s[i] == '\n' {
        i
    } else {
        line_end(s, i + 1)
    }
}

/// The lines of `s` from index `i` on, as `str::lines` gives them: split at
/// `\n`, a `\r` before it dropped, no empty line after a final `\n`.
pub open spec fn lines_from(s: Seq<char>, i: int) -> Seq<Seq<char>>
    decreases s.len() - i,
{
    if i < 0 || i >= s.len() {
        seq![]
    } else {
        let e = line_end(s, i);
        if e < i || e > s.len() {
            seq![]
        } else {
            let raw = s.subrange(i, e);
            let line = if e < s.len() && raw.len() > 0 && raw.last() == '\r' {
                raw.drop_last()
            } else {
                raw
            };
            seq![line] + if e < s.len() {
                lines_from(s, e + 1)
            } else {
                seq![]
            }
        }
    }
}

/// Splits a text into lines.
pub fn split_lines(s: &str) -> (r: Vec<String>)
    ensures
        views(r@) == lines_from(s@, 0),
{
    let n = s.unicode_len();
    let mut out: Vec<String> = Vec::new();
    let mut i: usize = 0;
    while i < n
        invariant
            n == s@.len(),
            i <= n,
            views(out@) + lines_from(s@, i as int) == lines_from(s@, 0),
        decreases n - i,
    {
        let mut e = i;
        while e < n && s.get_char(e) != '\n'
            invariant
                n == s@.len(),
                i <= e <= n,
                line_end(s@, i as int) == line_end(s@, e as int),
            decreases n - e,
        {
            e += 1;
        }
        let cut = if e < n && e > i && s.get_char(e - 1) == '\r' {
            e - 1
        } else {
            e
        };
        let line = owned(s.substring_char(i, cut));
        let ghost before = views(out@);
        proof {
            let raw = s@.subrange(i as int, e as int);
            if e < n && e > i && s@[e - 1] == '\r' {
                assert(raw.drop_last() =~= s@.subrange(i as int, cut as int));
            } else {
                assert(raw =~= s@.subrange(i as int, cut as int));
            }
        }
        out.push(line);
        assert(views(out@) =~= before.push(line@));
        if e >= n {
            assert(views(out@) + seq![] =~= views(out@));
            assert(views(out@) =~= before + lines_from(s@, i as int));
            return out;
        }
        assert(before + lines_from(s@, i as int) =~= views(out@) + lines_from(s@, e + 1));
        i = e + 1;
    }
    out
}

// ---------------------------------------------------------------------------
// Diagnostics
pub open spec fn diag_views(v: Seq<Diagnostic>) -> Seq<DiagView> {
    v.map_values(|d: Diagnostic| diag_view(d))
}

/// A line or column number written in a group.
pub open spec fn number_of(g: Option<Seq<char>>) -> Option<usize> {
    match g {
        Some(t) => match parse_u64(t) {
            Some(v) => if v <= usize::MAX {
                Some(v as usize)
            } else {
                None
            },
            None => None,
        },
        None => None,
    }
}

fn number(g: Option<String>) -> (r: Option<usize>)
    ensures
        r == number_of(group_view(g)),
{
    match g {
        Some(t) => match parse_decimal_u64(t.as_str()) {
            Some(v) => if v <= usize::MAX as u64 {
                Some(v as usize)
            } else {
                None
            },
            None => None,
        },
        None => None,
    }
}

pub open spec fn symbol_message(c: GroupsView) -> Seq<char> {
    "Unable to resolve symbol: "@ + group_text(c, 1)
}

/// An unresolved symbol named in line `i + off` or later, up to ten lines on.
pub open spec fn symbol_after(lines: Seq<Seq<char>>, i: int, off: int) -> Option<Seq<char>>
    decreases 10 - off,
{
    if off < 0 || off >= 10 || i + off >= lines.len() || i + off < 0 {
        None
    } else {
        match crate::pattern::regex_captures(SYMBOL_RE@, lines[i + off]) {
            Some(c) => Some(symbol_message(c)),
            None => symbol_after(lines, i, off + 1),
        }
    }
}

/// An unresolved symbol named in one of the four lines before line `i`.
pub open spec fn symbol_before(lines: Seq<Seq<char>>, i: int, off: int) -> Option<Seq<char>>
    decreases 5 - off,
{
    if off < 1 || off >= 5 || off > i || i - off >= lines.len() {
        None
    } else {
        match crate::pattern::regex_captures(SYMBOL_RE@, lines[i - off]) {
            Some(c) => Some(symbol_message(c)),
            None => symbol_before(lines, i, off + 1),
        }
    }
}

/// A `Caused by:` message in line `i + off` or later, up to ten lines on,
/// that is not a generic syntax error.
pub open spec fn caused_after(lines: Seq<Seq<char>>, i: int, off: int) -> Option<Seq<char>>
    decreases 10 - off,
{
    if off < 0 || off >= 10 || i + off >= lines.len() || i + off < 0 {
        None
    } else {
        match crate::pattern::regex_captures(CAUSED_BY_RE@, lines[i + off]) {
            Some(c) => if !has_prefix(trimmed(group_text(c, 1)), "Syntax error"@) {
                Some(trimmed(group_text(c, 1)))
            } else {
                caused_after(lines, i, off + 1)
            },
            None => caused_after(lines, i, off + 1),
        }
    }
}

/// The message for a Clojure error reported at line `i`.
pub open spec fn clojure_message(lines: Seq<Seq<char>>, i: int) -> Seq<char> {
    match symbol_after(lines, i, 0) {
        Some(m) => m,
        None => match symbol_before(lines, i, 1) {
            Some(m) => m,
            None => match caused_after(lines, i, 0) {
                Some(m) => m,
                None => {
                    let line = if 0 <= i < lines.len() {
                        lines[i]
                    } else {
                        seq![]
                    };
                    if has_prefix(line, "Syntax error"@) {
                        trimmed(line.subrange("Syntax error"@.len() as int, line.len() as int))
                    } else {
                        trimmed(line)
                    }
                },
            },
        },
    }
}

pub open spec fn located(c: GroupsView, message: Seq<char>) -> DiagView {
    (Severity::Error, message, group_opt(c, 1), number_of(group_opt(c, 2)), number_of(group_opt(c, 3)))
}

/// Clojure diagnostics from line `i` on, after `acc`.
pub open spec fn clojure_scan(lines: Seq<Seq<char>>, i: int, acc: Seq<DiagView>) -> Seq<DiagView>
    decreases lines.len() - i,
{
    if i < 0 || i >= lines.len() {
        acc
    } else {
        let line = lines[i];
        match crate::pattern::regex_captures(SYNTAX_RE@, line) {
            Some(c) => clojure_scan(lines, i + 1, acc.push(located(c, clojure_message(lines, i)))),
            None => match crate::pattern::regex_captures(COMPILER_EX_RE@, line) {
                Some(c) => clojure_scan(lines, i + 1, acc.push(located(c, clojure_message(lines, i)))),
                None => if acc.len() == 0 {
                    match crate::pattern::regex_captures(SYMBOL_RE@, line) {
                        Some(c) => clojure_scan(
                            lines,
                            i + 1,
                            acc.push((Severity::Error, symbol_message(c), None, None, None)),
                        ),
                        None => clojure_scan(lines, i + 1, acc),
                    }
                } else {
                    clojure_scan(lines, i + 1, acc)
                },
            },
        }
    }
}

/// Maven diagnostics from line `i` on.
pub open spec fn maven_scan(lines: Seq<Seq<char>>, i: int) -> Seq<DiagView>
    decreases lines.len() - i,
{
    if i < 0 || i >= lines.len() {
        seq![]
    } else {
        let rest = maven_scan(lines, i + 1);
        match crate::pattern::regex_captures(MAVEN_ERROR_RE@, lines[i]) {
            Some(c) => seq![(Severity::Error, trimmed(group_text(c, 4)), Some(group_text(c, 1)), number_of(group_opt(c, 2)), number_of(group_opt(c, 3)))] + rest,
            None => match crate::pattern::regex_captures(MAVEN_WARNING_RE@, lines[i]) {
                Some(c) => seq![(Severity::Warning, trimmed(group_text(c, 4)), Some(group_text(c, 1)), number_of(group_opt(c, 2)), number_of(group_opt(c, 3)))] + rest,
                None => rest,
            },
        }
    }
}

/// Gradle (javac and kotlinc) diagnostics from line `i` on.
pub open spec fn gradle_scan(lines: Seq<Seq<char>>, i: int) -> Seq<DiagView>
    decreases lines.len() - i,
{
    if i < 0 || i >= lines.len() {
        seq![]
    } else {
        let rest = gradle_scan(lines, i + 1);
        match crate::pattern::regex_captures(JAVAC_RE@, lines[i]) {
            Some(c) => seq![(if group_text(c, 3) == "error"@ { Severity::Error } else { Severity::Warning }, trimmed(group_text(c, 4)), Some(group_text(c, 1)), number_of(group_opt(c, 2)), None)] + rest,
            None => match crate::pattern::regex_captures(KOTLIN_RE@, lines[i]) {
                Some(c) => seq![(if group_text(c, 1) == "e"@ { Severity::Error } else { Severity::Warning }, trimmed(group_text(c, 5)), Some(group_text(c, 2)), number_of(group_opt(c, 3)), number_of(group_opt(c, 4)))] + rest,
                None => rest,
            },
        }
    }
}

/// The diagnostics in a build's output (standard error, then standard output).
pub open spec fn diagnostics_of(stderr: Seq<char>, stdout: Seq<char>, system: BuildSystem) -> Seq<DiagView> {
    let lines = lines_from(stderr + "\n"@ + stdout, 0);
    match system {
        BuildSystem::DepsEdn | BuildSystem::Leiningen => clojure_scan(lines, 0, seq![]),
        BuildSystem::Maven => maven_scan(lines, 0),
        BuildSystem::Gradle => gradle_scan(lines, 0),
    }
}

/// The message for an unresolved symbol, from the groups of a match.
pub fn symbol_message_of(c: &Vec<Option<String>>) -> (r: String)
    ensures
        r@ == symbol_message(groups_view(c@)),
{
    let mut m = owned("Unable to resolve symbol: ");
    let g = group(c, 1);
    push_str(&mut m, g.as_str());
    m
}

fn find_clojure_message(lines: &Vec<String>, i: usize) -> (r: String)
    requires
        i < lines@.len(),
    ensures
        r@ == clojure_message(views(lines@), i as int),
{
    let ghost lv = views(lines@);
    let n = lines.len();
    let mut off: usize = 0;
    while off < 10 && off < n - i
        invariant
            lv == views(lines@),
            n == lines@.len(),
            i < n,
            off <= 10,
            symbol_after(lv, i as int, 0) == symbol_after(lv, i as int, off as int),
        decreases 10 - off,
    {
        match captures(SYMBOL_RE, lines[i + off].as_str()) {
            Some(c) => {
                return symbol_message_of(&c);
            },
            None => {},
        }
        off += 1;
    }
    let mut back: usize = 1;
    while back < 5 && back <= i
        invariant
            lv == views(lines@),
            n == lines@.len(),
            i < n,
            1 <= back <= 5,
            symbol_after(lv, i as int, 0) is None,
            symbol_before(lv, i as int, 1) == symbol_before(lv, i as int, back as int),
        decreases 5 - back,
    {
        match captures(SYMBOL_RE, lines[i - back].as_str()) {
            Some(c) => {
                return symbol_message_of(&c);
            },
            None => {},
        }
        back += 1;
    }
    let mut off: usize = 0;
    while off < 10 && off < n - i
        invariant
            lv == views(lines@),
            n == lines@.len(),
            i < n,
            off <= 10,
            symbol_after(lv, i as int, 0) is None,
            symbol_before(lv, i as int, 1) is None,
            caused_after(lv, i as int, 0) == caused_after(lv, i as int, off as int),
        decreases 10 - off,
    {
        match captures(CAUSED_BY_RE, lines[i + off].as_str()) {
            Some(c) => {
                let g = group(&c, 1);
                let msg = trim(g.as_str());
                if !starts_with(msg, "Syntax error") {
                    return owned(msg);
                }
            },
            None => {},
        }
        off += 1;
    }
    let line = lines[i].as_str();
    if starts_with(line, "Syntax error") {
        let k = "Syntax error".unicode_len();
        owned(trim(line.substring_char(k, line.unicode_len())))
    } else {
        owned(trim(line))
    }
}

/// An error at the location that the groups of a match give.
pub fn located_diag(c: &Vec<Option<String>>, message: String) -> (r: Diagnostic)
    ensures
        diag_view(r) == located(groups_view(c@), message@),
{
    Diagnostic {
        severity: Severity::Error,
        message,
        file: group_if(c, 1),
        line: number(group_if(c, 2)),
        column: number(group_if(c, 3)),
    }
}

fn parse_clojure(lines: &Vec<String>) -> (r: Vec<Diagnostic>)
    ensures
        diag_views(r@) == clojure_scan(views(lines@), 0, seq![]),
{
    let ghost lv = views(lines@);
    let mut out: Vec<Diagnostic> = Vec::new();
    let mut i: usize = 0;
    assert(diag_views(out@) =~= seq![]);
    while i < lines.len()
        invariant
            lv == views(lines@),
            i <= lines@.len(),
            clojure_scan(lv, 0, seq![]) == clojure_scan(lv, i as int, diag_views(out@)),
        decreases lines@.len() - i,
    {
        let line = lines[i].as_str();
        let ghost before = diag_views(out@);
        match captures(SYNTAX_RE, line) {
            Some(c) => {
                let d = located_diag(&c, find_clojure_message(lines, i));
                out.push(d);
                assert(diag_views(out@) =~= before.push(diag_view(d)));
            },
            None => match captures(COMPILER_EX_RE, line) {
                Some(c) => {
                    let d = located_diag(&c, find_clojure_message(lines, i));
                    out.push(d);
                    assert(diag_views(out@) =~= before.push(diag_view(d)));
                },
                None => {
                    if out.len() == 0 {
                        match captures(SYMBOL_RE, line) {
                            Some(c) => {
                                let d = Diagnostic {
                                    severity: Severity::Error,
                                    message: symbol_message_of(&c),
                                    file: None,
                                    line: None,
                                    column: None,
                                };
                                out.push(d);
                                assert(diag_views(out@) =~= before.push(diag_view(d)));
                            },
                            None => {},
                        }
                    }
                },
            },
        }
        i += 1;
    }
    out
}

fn trimmed_group(c: &Vec<Option<String>>, k: usize) -> (r: String)
    ensures
        r@ == trimmed(group_text(groups_view(c@), k as int)),
{
    let g = group(c, k);
    owned(trim(g.as_str()))
}

fn parse_maven(lines: &Vec<String>) -> (r: Vec<Diagnostic>)
    ensures
        diag_views(r@) == maven_scan(views(lines@), 0),
{
    let ghost lv = views(lines@);
    let mut out: Vec<Diagnostic> = Vec::new();
    let mut i: usize = 0;
    while i < lines.len()
        invariant
            lv == views(lines@),
            i <= lines@.len(),
            maven_scan(lv, 0) == diag_views(out@) + maven_scan(lv, i as int),
        decreases lines@.len() - i,
    {
        let line = lines[i].as_str();
        let ghost before = diag_views(out@);
        let found = match captures(MAVEN_ERROR_RE, line) {
            Some(c) => Some((Severity::Error, c)),
            None => match captures(MAVEN_WARNING_RE, line) {
                Some(c) => Some((Severity::Warning, c)),
                None => None,
            },
        };
        match found {
            Some((severity, c)) => {
                let d = Diagnostic {
                    severity,
                    message: trimmed_group(&c, 4),
                    file: Some(group(&c, 1)),
                    line: number(group_if(&c, 2)),
                    column: number(group_if(&c, 3)),
                };
                out.push(d);
                assert(diag_views(out@) =~= before.push(diag_view(d)));
                assert(before + maven_scan(lv, i as int) =~= diag_views(out@) + maven_scan(lv, i + 1));
            },
            None => {},
        }
        i += 1;
    }
    assert(diag_views(out@) + seq![] =~= diag_views(out@));
    out
}

fn parse_gradle(lines: &Vec<String>) -> (r: Vec<Diagnostic>)
    ensures
        diag_views(r@) == gradle_scan(views(lines@), 0),
{
    let ghost lv = views(lines@);
    let mut out: Vec<Diagnostic> = Vec::new();
    let mut i: usize = 0;
    while i < lines.len()
        invariant
            lv == views(lines@),
            i <= lines@.len(),
            gradle_scan(lv, 0) == diag_views(out@) + gradle_scan(lv, i as int),
        decreases lines@.len() - i,
    {
        let line = lines[i].as_str();
        let ghost before = diag_views(out@);
        match captures(JAVAC_RE, line) {
            Some(c) => {
                let kind = group(&c, 3);
                let d = Diagnostic {
                    severity: if str_eq(kind.as_str(), "error") {
                        Severity::Error
                    } else {
                        Severity::Warning
                    },
                    message: trimmed_group(&c, 4),
                    file: Some(group(&c, 1)),
                    line: number(group_if(&c, 2)),
                    column: None,
                };
                out.push(d);
                assert(diag_views(out@) =~= before.push(diag_view(d)));
                assert(before + gradle_scan(lv, i as int) =~= diag_views(out@) + gradle_scan(lv, i + 1));
            },
            None => match captures(KOTLIN_RE, line) {
                Some(c) => {
                    let kind = group(&c, 1);
                    let d = Diagnostic {
                        severity: if str_eq(kind.as_str(), "e") {
                            Severity::Error
                        } else {
                            Severity::Warning
                        },
                        message: trimmed_group(&c, 5),
                        file: Some(group(&c, 2)),
                        line: number(group_if(&c, 3)),
                        column: number(group_if(&c, 4)),
                    };
                    out.push(d);
                    assert(diag_views(out@) =~= before.push(diag_view(d)));
                    assert(before + gradle_scan(lv, i as int) =~= diag_views(out@) + gradle_scan(lv, i + 1));
                },
                None => {},
            },
        }
        i += 1;
    }
    assert(diag_views(out@) + seq![] =~= diag_views(out@));
    out
}

/// Reads the diagnostics out of a build's standard error and output.
pub fn parse(stderr: &str, stdout: &str, system: BuildSystem) -> (r: Vec<Diagnostic>)
    ensures
        diag_views(r@) == diagnostics_of(stderr@, stdout@, system),
{
    let mut combined = owned(stderr);
    push_str(&mut combined, "\n");
    push_str(&mut combined, stdout);
    let lines = split_lines(combined.as_str());
    match system {
        BuildSystem::DepsEdn | BuildSystem::Leiningen => parse_clojure(&lines),
        BuildSystem::Maven => parse_maven(&lines),
        BuildSystem::Gradle => parse_gradle(&lines),
    }
}

// ---------------------------------------------------------------------------
// Source files
/// Where a reported source file may be: as given when absolute; otherwise
/// below the project, directly and then under the usual source roots.
pub open spec fn source_candidates_of(dir: Seq<char>, file: Seq<char>) -> Seq<Seq<char>> {
    if file.len() > 0 && file[0] == '/' {
        seq![file]
    } else {
        seq![
            join_path(dir, file),
            join_path(join_path(dir, "src"@), file),
            join_path(join_path(dir, "src/main/java"@), file),
            join_path(join_path(dir, "src/main/kotlin"@), file),
            join_path(join_path(dir, "src/main/clj"@), file),
        ]
    }
}

fn under(dir: &str, root: &str, file: &str) -> (r: String)
    ensures
        r@ == join_path(join_path(dir@, root@), file@),
{
    let d = join_path_str(dir, root);
    join_path_str(d.as_str(), file)
}

/// Candidate locations of a reported source file; the first that exists is used,
/// and the first when none does.
pub fn source_candidates(project_dir: &str, file: &str) -> (r: Vec<String>)
    ensures
        views(r@) == source_candidates_of(project_dir@, file@),
        r@.len() >= 1,
{
    if file.unicode_len() > 0 && file.get_char(0) == '/' {
        let r = vec![owned(file)];
        assert(views(r@) =~= source_candidates_of(project_dir@, file@));
        return r;
    }
    let r = vec![
        join_path_str(project_dir, file),
        under(project_dir, "src", file),
        under(project_dir, "src/main/java", file),
        under(project_dir, "src/main/kotlin", file),
        under(project_dir, "src/main/clj", file),
    ];
    assert(views(r@) =~= source_candidates_of(project_dir@, file@));
    r
}

/// The lines around line `error_line` (1-based), `context` on each side.
pub open spec fn context_window(all: Seq<Seq<char>>, error_line: nat, context: nat) -> Option<(Seq<(nat, Seq<char>)>, nat)> {
    if error_line == 0 || error_line > all.len() {
        None
    } else {
        let idx = (error_line - 1) as nat;
        let start: nat = if idx >= context {
            (idx - context) as nat
        } else {
            0
        };
        let end: nat = if idx + context + 1 <= all.len() {
            idx + context + 1
        } else {
            all.len()
        };
        Some((Seq::new((end - start) as nat, |k: int| ((start + k + 1) as nat, all[start + k])), (idx - start) as nat))
    }
}

/// The source lines around an error, from a file's content.
pub fn source_context(content: &str, error_line: usize, context: usize) -> (r: Option<SourceContext>)
    ensures
        match r {
            Some(c) => context_window(lines_from(content@, 0), error_line as nat, context as nat) == Some(context_view(c)),
            None => context_window(lines_from(content@, 0), error_line as nat, context as nat) is None,
        },
{
    let all = split_lines(content);
    let len = all.len();
    if error_line == 0 || error_line > len {
        return None;
    }
    let idx = error_line - 1;
    let start = if idx >= context {
        idx - context
    } else {
        0
    };
    let end = if context >= len - idx {
        len
    } else {
        idx + context + 1
    };
    let mut lines: Vec<(usize, String)> = Vec::new();
    let mut k: usize = start;
    while k < end
        invariant
            start <= k <= end <= len,
            len == all@.len(),
            lines@.len() == k - start,
            forall|j: int|
                0 <= j < k - start ==> (#[trigger] lines@[j]).0 == start + j + 1 && lines@[j].1@ == all@[start + j]@,
        decreases end - k,
    {
        lines.push((k + 1, all[k].clone()));
        k += 1;
    }
    let c = SourceContext { lines, error_line_index: idx - start };
    proof {
        let w = context_window(views(all@), error_line as nat, context as nat).unwrap();
        assert(context_view(c).0 =~= w.0);
    }
    Some(c)
}

/// The content recorded for `path` among the source files that exist.
pub open spec fn lookup(files: Seq<(Seq<char>, Seq<char>)>, path: Seq<char>) -> Option<Seq<char>>
    decreases files.len(),
{
    if files.len() == 0 {
        None
    } else if files[0].0 == path {
        Some(files[0].1)
    } else {
        lookup(files.drop_first(), path)
    }
}

/// The first candidate that exists, or the first candidate.
pub open spec fn resolve_in(cands: Seq<Seq<char>>, files: Seq<(Seq<char>, Seq<char>)>) -> Seq<char>
    decreases cands.len(),
{
    if cands.len() == 0 {
        seq![]
    } else if cands.len() == 1 || lookup(files, cands[0]) is Some {
        cands[0]
    } else {
        resolve_in(cands.drop_first(), files)
    }
}

pub open spec fn files_view(v: Seq<(String, String)>) -> Seq<(Seq<char>, Seq<char>)> {
    v.map_values(|f: (String, String)| (f.0@, f.1@))
}

/// A diagnostic as a build error report shows it: its file resolved below
/// the project and shown relative to it, with the lines around the error when
/// the file was read; then a newline.
pub open spec fn report_entry(d: DiagView, dir: Seq<char>, files: Seq<(Seq<char>, Seq<char>)>, colors: bool) -> Seq<char> {
    match (d.2, d.3) {
        (Some(f), Some(l)) => {
            let resolved = resolve_in(source_candidates_of(dir, f), files);
            let shown = (d.0, d.1, Some(crate::deps::relative_to(resolved, dir)), d.3, d.4);
            let ctx = match lookup(files, resolved) {
                Some(content) => context_window(lines_from(content, 0), l as nat, 2),
                None => None,
            };
            rendered(shown, ctx, colors) + "\n"@
        },
        _ => rendered(d, None, colors) + "\n"@,
    }
}

/// The report entries of some diagnostics, one after the other.
pub open spec fn report_entries(ds: Seq<DiagView>, dir: Seq<char>, files: Seq<(Seq<char>, Seq<char>)>, colors: bool) -> Seq<char>
    decreases ds.len(),
{
    if ds.len() == 0 {
        seq![]
    } else {
        report_entries(ds.drop_last(), dir, files, colors) + report_entry(ds.last(), dir, files, colors)
    }
}

/// A failed build's output as reported: its diagnostics with source context,
/// or the standard error as it is when none is recognised.
pub open spec fn build_error_report(stderr: Seq<char>, stdout: Seq<char>, system: BuildSystem, dir: Seq<char>, files: Seq<(Seq<char>, Seq<char>)>, colors: bool) -> Seq<char> {
    let ds = diagnostics_of(stderr, stdout, system);
    if ds.len() == 0 {
        stderr
    } else {
        report_entries(ds, dir, files, colors)
    }
}

fn lookup_exec(files: &Vec<(String, String)>, path: &str) -> (r: Option<usize>)
    ensures
        match r {
            Some(i) => i < files@.len() && lookup(files_view(files@), path@) == Some(files@[i as int].1@),
            None => lookup(files_view(files@), path@) is None,
        },
{
    let mut i: usize = 0;
    assert(files_view(files@).subrange(0, files@.len() as int) =~= files_view(files@));
    while i < files.len()
        invariant
            i <= files@.len(),
            lookup(files_view(files@), path@) == lookup(files_view(files@).subrange(i as int, files@.len() as int), path@),
        decreases files@.len() - i,
    {
        proof {
            let t = files_view(files@).subrange(i as int, files@.len() as int);
            assert(t.drop_first() =~= files_view(files@).subrange(i + 1, files@.len() as int));
            assert(t[0] == (files@[i as int].0@, files@[i as int].1@));
        }
        if str_eq(files[i].0.as_str(), path) {
            return Some(i);
        }
        i += 1;
    }
    None
}

proof fn lemma_resolve_in(cands: Seq<Seq<char>>, files: Seq<(Seq<char>, Seq<char>)>, k: int)
    requires
        0 <= k < cands.len(),
        forall|j: int| 0 <= j < k ==> lookup(files, #[trigger] cands[j]) is None,
        lookup(files, cands[k]) is Some || k == cands.len() - 1,
    ensures
        resolve_in(cands, files) == cands[k],
    decreases k,
{
    if k > 0 {
        assert(lookup(files, cands[0]) is None);
        let rest = cands.drop_first();
        assert forall|j: int| 0 <= j < k - 1 implies lookup(files, #[trigger] rest[j]) is None by {
            assert(rest[j] == cands[j + 1]);
        }
        lemma_resolve_in(rest, files, k - 1);
    }
}

/// Which candidate a source file resolves to, and where its content is.
fn resolve_candidates(cands: &Vec<String>, files: &Vec<(String, String)>) -> (r: (usize, Option<usize>))
    requires
        cands@.len() >= 1,
    ensures
        r.0 < cands@.len(),
        cands@[r.0 as int]@ == resolve_in(views(cands@), files_view(files@)),
        match r.1 {
            Some(i) => i < files@.len() && lookup(files_view(files@), cands@[r.0 as int]@) == Some(files@[i as int].1@),
            None => lookup(files_view(files@), cands@[r.0 as int]@) is None,
        },
{
    let ghost fv = files_view(files@);
    let mut k: usize = 0;
    while k < cands.len()
        invariant
            k <= cands@.len(),
            cands@.len() >= 1,
            fv == files_view(files@),
            forall|j: int| 0 <= j < k ==> lookup(fv, #[trigger] views(cands@)[j]) is None,
        decreases cands@.len() - k,
    {
        assert(views(cands@)[k as int] == cands@[k as int]@);
        match lookup_exec(files, cands[k].as_str()) {
            Some(i) => {
                proof {
                    lemma_resolve_in(views(cands@), fv, k as int);
                }
                return (k, Some(i));
            },
            None => {},
        }
        k += 1;
    }
    let last = cands.len() - 1;
    proof {
        assert(views(cands@)[last as int] == cands@[last as int]@);
        lemma_resolve_in(views(cands@), fv, last as int);
    }
    (last, None)
}

fn report_one(d: &Diagnostic, project_dir: &str, files: &Vec<(String, String)>, colors: bool) -> (r: String)
    ensures
        r@ == report_entry(diag_view(*d), project_dir@, files_view(files@), colors),
{
    let ghost fv = files_view(files@);
    let mut out = match (&d.file, d.line) {
        (Some(f), Some(l)) => {
            let cands = source_candidates(project_dir, f.as_str());
            let (idx, hit) = resolve_candidates(&cands, files);
            let resolved = cands[idx].as_str();
            let shown = Diagnostic {
                severity: d.severity,
                message: d.message.clone(),
                file: Some(crate::deps::relative_path(resolved, project_dir)),
                line: d.line,
                column: d.column,
            };
            let ctx = match hit {
                Some(i) => source_context(files[i].1.as_str(), l, 2),
                None => None,
            };
            let ctx_ref: Option<&SourceContext> = match &ctx {
                Some(c) => Some(c),
                None => None,
            };
            render_with(&shown, ctx_ref, colors)
        },
        _ => render_with(d, None, colors),
    };
    push_str(&mut out, "\n");
    out
}

/// Reports a failed build: each recognised diagnostic rendered with the
/// lines around it, read from `files` (path and content of the candidate
/// source files that exist); the standard error itself when nothing is
/// recognised.
pub fn format_build_error_with(stderr: &str, stdout: &str, system: BuildSystem, project_dir: &str, files: &Vec<(String, String)>, colors: bool) -> (r: String)
    ensures
        r@ == build_error_report(stderr@, stdout@, system, project_dir@, files_view(files@), colors),
{
    let ds = parse(stderr, stdout, system);
    if ds.len() == 0 {
        return owned(stderr);
    }
    let ghost dv = diag_views(ds@);
    let mut out = String::new();
    let mut i: usize = 0;
    while i < ds.len()
        invariant
            i <= ds@.len(),
            dv == diag_views(ds@),
            out@ == report_entries(dv.subrange(0, i as int), project_dir@, files_view(files@), colors),
        decreases ds@.len() - i,
    {
        let e = report_one(&ds[i], project_dir, files, colors);
        push_str(&mut out, e.as_str());
        proof {
            let t = dv.subrange(0, i + 1);
            assert(t.drop_last() =~= dv.subrange(0, i as int));
            assert(t.last() == diag_view(ds@[i as int]));
        }
        i += 1;
    }
    assert(dv.subrange(0, ds@.len() as int) =~= dv);
    out
}

/// Reports a failed build, coloured when standard error is a terminal.
pub fn format_build_error(stderr: &str, stdout: &str, system: BuildSystem, project_dir: &str, files: &Vec<(String, String)>) -> (r: String)
    ensures
        r@ == build_error_report(stderr@, stdout@, system, project_dir@, files_view(files@), false) || r@
            == build_error_report(stderr@, stdout@, system, project_dir@, files_view(files@), true),
{
    format_build_error_with(stderr, stdout, system, project_dir, files, crate::diagnostic::use_colors())
}

} // verus!
