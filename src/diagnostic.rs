//! Rendering of build diagnostics in a compiler-like form, with the source
//! lines around the error and carets under the offending token.
use vstd::prelude::*;
use crate::text::{contains, dec_len, dec_str, has_infix, is_ws, lemma_dec_str_shape, owned, push_char, push_decimal, push_str};

verus! {

#[derive(Debug, Clone, Copy, PartialEq, Eq, Structural)]
pub enum Severity {
    Error,
    Warning,
}

/// A compiler message with its location, as far as it is known.
#[derive(Debug, Clone)]
pub struct Diagnostic {
    pub severity: Severity,
    pub message: String,
    pub file: Option<String>,
    pub line: Option<usize>,
    pub column: Option<usize>,
}

/// Source lines around an error: (1-based line number, text), and which of
/// them holds the error.
#[derive(Debug)]
pub struct SourceContext {
    pub lines: Vec<(usize, String)>,
    pub error_line_index: usize,
}

/// A diagnostic as plain values: severity, message, file, line, column.
pub type DiagView = (Severity, Seq<char>, Option<Seq<char>>, Option<usize>, Option<usize>);

/// Source lines as plain values: (line number, text) pairs and the error's index.
pub type ContextView = (Seq<(nat, Seq<char>)>, nat);

pub open spec fn diag_view(d: Diagnostic) -> DiagView {
    (d.severity, d.message@, match d.file {
        Some(f) => Some(f@),
        None => None,
    }, d.line, d.column)
}

pub open spec fn context_view(c: SourceContext) -> ContextView {
    (c.lines@.map_values(|l: (usize, String)| (l.0 as nat, l.1@)), c.error_line_index as nat)
}

pub open spec fn opt_context_view(c: Option<&SourceContext>) -> Option<ContextView> {
    match c {
        Some(x) => Some(context_view(*x)),
        None => None,
    }
}

/// `text` in the given ANSI colour when colours are on.
pub open spec fn paint(code: Seq<char>, text: Seq<char>, colors: bool) -> Seq<char> {
    if colors {
        "\x1b["@ + code + "m"@ + text + "\x1b[0m"@
    } else {
        text
    }
}

pub open spec fn red(text: Seq<char>, colors: bool) -> Seq<char> {
    paint("1;31"@, text, colors)
}

pub open spec fn yellow(text: Seq<char>, colors: bool) -> Seq<char> {
    paint("1;33"@, text, colors)
}

pub open spec fn blue(text: Seq<char>, colors: bool) -> Seq<char> {
    paint("1;34"@, text, colors)
}

pub open spec fn severity_paint(s: Severity, text: Seq<char>, colors: bool) -> Seq<char> {
    match s {
        Severity::Error => red(text, colors),
        Severity::Warning => yellow(text, colors),
    }
}

/// `n` copies of `c`.
pub open spec fn repeat(c: char, n: nat) -> Seq<char> {
    Seq::new(n, |i: int| c)
}

/// A message shortened for the caret line.
pub open spec fn annotation_of(m: Seq<char>) -> Seq<char> {
    if has_infix(m, "Unable to resolve symbol"@) {
        "symbol not found"@
    } else if has_infix(m, "cannot find symbol"@) {
        "symbol not found"@
    } else if has_infix(m, "Unresolved reference"@) {
        "unresolved reference"@
    } else if m.len() > 40 {
        m.subrange(0, 37) + "..."@
    } else {
        m
    }
}

pub open spec fn is_token_end(c: char) -> bool {
    is_ws(c) || c == '(' || c == ')' || c == '[' || c == ']' || c == '"'
}

/// Number of leading characters of `s` that are `(` or `[`.
pub open spec fn open_run(s: Seq<char>) -> nat
    decreases s.len(),
{
    if s.len() > 0 && (s[0] == '(' || s[0] == '[') {
        1 + open_run(s.drop_first())
    } else {
        0
    }
}

/// Number of leading characters of `s` before a token end.
pub open spec fn token_run(s: Seq<char>) -> nat
    decreases s.len(),
{
    if s.len() > 0 && !is_token_end(s[0]) {
        1 + token_run(s.drop_first())
    } else {
        0
    }
}

/// Width of the caret mark at `col`: the opening brackets there and the token
/// after them, at least one.
pub open spec fn token_length(line: Seq<char>, col: nat) -> nat {
    if col >= line.len() {
        1
    } else {
        let rest = line.subrange(col as int, line.len() as int);
        let o = open_run(rest);
        let t = token_run(rest.subrange(o as int, rest.len() as int));
        if o + t >= 1 {
            o + t
        } else {
            1
        }
    }
}

/// `n` right-aligned in `width` columns.
pub open spec fn right_aligned(n: nat, width: nat) -> Seq<char> {
    if dec_len(n) < width {
        repeat(' ', (width - dec_len(n)) as nat) + dec_str(n)
    } else {
        dec_str(n)
    }
}

pub open spec fn location_of(d: DiagView, f: Seq<char>) -> Seq<char> {
    match (d.3, d.4) {
        (Some(l), Some(c)) => f + ":"@ + dec_str(l as nat) + ":"@ + dec_str(c as nat),
        (Some(l), None) => f + ":"@ + dec_str(l as nat),
        _ => f,
    }
}

pub open spec fn header_of(d: DiagView, colors: bool) -> Seq<char> {
    let label = match d.0 {
        Severity::Error => red("error"@, colors),
        Severity::Warning => yellow("warning"@, colors),
    };
    label + ": "@ + d.1 + "\n"@ + match d.2 {
        Some(f) => " "@ + blue("-->"@, colors) + " "@ + location_of(d, f) + "\n"@,
        None => seq![],
    }
}

/// The caret line under the error, when the column is known.
pub open spec fn caret_line(d: DiagView, content: Seq<char>, gutter: Seq<char>, colors: bool) -> Seq<char> {
    match d.4 {
        Some(col) => {
            let off: nat = if col >= 1 {
                (col - 1) as nat
            } else {
                0
            };
            let mark = repeat(' ', off) + repeat('^', token_length(content, off)) + " "@
                + annotation_of(d.1);
            gutter + " "@ + blue("|"@, colors) + " "@ + severity_paint(d.0, mark, colors)
                + "\n"@
        },
        None => seq![],
    }
}

/// The context lines from index `i` on.
pub open spec fn context_lines(d: DiagView, c: ContextView, width: nat, colors: bool, i: int) -> Seq<char>
    decreases c.0.len() - i,
{
    if i < 0 || i >= c.0.len() {
        seq![]
    } else {
        let (num, content) = c.0[i];
        let row = blue(right_aligned(num, width), colors) + " "@ + blue("|"@, colors) + " "@
            + content + "\n"@;
        let caret = if i == c.1 {
            caret_line(d, content, repeat(' ', width), colors)
        } else {
            seq![]
        };
        row + caret + context_lines(d, c, width, colors, i + 1)
    }
}

pub open spec fn gutter_width(c: ContextView) -> nat {
    if c.0.len() == 0 {
        1
    } else {
        dec_len(c.0.last().0)
    }
}

/// A diagnostic rendered with or without colours.
pub open spec fn rendered(d: DiagView, ctx: Option<ContextView>, colors: bool) -> Seq<char> {
    header_of(d, colors) + match ctx {
        Some(c) => {
            let w = gutter_width(c);
            let edge = repeat(' ', w) + " "@ + blue("|"@, colors) + "\n"@;
            edge + context_lines(d, c, w, colors, 0) + edge
        },
        None => seq![],
    }
}

fn paint_into(out: &mut String, code: &str, text: &str, colors: bool)
    ensures
        final(out)@ == old(out)@ + paint(code@, text@, colors),
{
    if colors {
        push_str(out, "\x1b[");
        push_str(out, code);
        push_str(out, "m");
        push_str(out, text);
        push_str(out, "\x1b[0m");
    } else {
        push_str(out, text);
    }
}

fn push_repeat(out: &mut String, c: char, n: usize)
    ensures
        final(out)@ == old(out)@ + repeat(c, n as nat),
{
    let mut i: usize = 0;
    while i < n
        invariant
            i <= n,
            out@ == old(out)@ + repeat(c, i as nat),
        decreases n - i,
    {
        push_char(out, c);
        i += 1;
        assert(out@ =~= old(out)@ + repeat(c, i as nat));
    }
}

/// Shortens a message for the caret line.
pub fn short_annotation(message: &str) -> (r: String)
    ensures
        r@ == annotation_of(message@),
{
    if contains(message, "Unable to resolve symbol") {
        return owned("symbol not found");
    }
    if contains(message, "cannot find symbol") {
        return owned("symbol not found");
    }
    if contains(message, "Unresolved reference") {
        return owned("unresolved reference");
    }
    if message.unicode_len() > 40 {
        let mut r = owned(message.substring_char(0, 37));
        push_str(&mut r, "...");
        r
    } else {
        owned(message)
    }
}

proof fn lemma_run_step(s: Seq<char>, i: int)
    requires
        0 <= i < s.len(),
    ensures
        s.subrange(i, s.len() as int).drop_first() == s.subrange(i + 1, s.len() as int),
        s.subrange(i, s.len() as int)[0] == s[i],
{
    assert(s.subrange(i, s.len() as int).drop_first() =~= s.subrange(i + 1, s.len() as int));
}

fn is_token_end_exec(c: char) -> (r: bool)
    ensures
        r == is_token_end(c),
{
    crate::text::is_whitespace(c) || c == '(' || c == ')' || c == '[' || c == ']' || c == '"'
}

/// Width of the caret mark for a column offset in a line.
pub fn extract_token_length(line: &str, col_offset: usize) -> (r: usize)
    ensures
        r == token_length(line@, col_offset as nat),
{
    let n = line.unicode_len();
    if col_offset >= n {
        return 1;
    }
    let mut start = col_offset;
    while start < n && (line.get_char(start) == '(' || line.get_char(start) == '[')
        invariant
            n == line@.len(),
            col_offset <= start <= n,
            open_run(line@.subrange(col_offset as int, n as int)) == (start - col_offset) + open_run(
                line@.subrange(start as int, n as int),
            ),
        decreases n - start,
    {
        proof {
            lemma_run_step(line@, start as int);
        }
        start += 1;
    }
    proof {
        let rest = line@.subrange(col_offset as int, n as int);
        assert(rest.subrange((start - col_offset) as int, rest.len() as int) =~= line@.subrange(start as int, n as int));
    }
    let mut end = start;
    while end < n && !is_token_end_exec(line.get_char(end))
        invariant
            n == line@.len(),
            start <= end <= n,
            token_run(line@.subrange(start as int, n as int)) == (end - start) + token_run(
                line@.subrange(end as int, n as int),
            ),
        decreases n - end,
    {
        proof {
            lemma_run_step(line@, end as int);
        }
        end += 1;
    }
    let total = end - col_offset;
    if total >= 1 {
        total
    } else {
        1
    }
}

fn push_location(out: &mut String, d: &Diagnostic, f: &str)
    ensures
        final(out)@ == old(out)@ + location_of(diag_view(*d), f@),
{
    push_str(out, f);
    match d.line {
        Some(l) => {
            push_str(out, ":");
            push_decimal(out, l as u64);
            match d.column {
                Some(c) => {
                    push_str(out, ":");
                    push_decimal(out, c as u64);
                },
                None => {},
            }
        },
        None => {},
    }
    assert(final(out)@ =~= old(out)@ + location_of(diag_view(*d), f@));
}

fn push_header(out: &mut String, d: &Diagnostic, colors: bool)
    ensures
        final(out)@ == old(out)@ + header_of(diag_view(*d), colors),
{
    let ghost dv = diag_view(*d);
    match d.severity {
        Severity::Error => paint_into(out, "1;31", "error", colors),
        Severity::Warning => paint_into(out, "1;33", "warning", colors),
    }
    push_str(out, ": ");
    push_str(out, d.message.as_str());
    push_str(out, "\n");
    let ghost mid = out@;
    let ghost label = match dv.0 {
        Severity::Error => red("error"@, colors),
        Severity::Warning => yellow("warning"@, colors),
    };
    assert(mid =~= old(out)@ + (label + ": "@ + dv.1 + "\n"@));
    match &d.file {
        Some(f) => {
            push_str(out, " ");
            paint_into(out, "1;34", "-->", colors);
            push_str(out, " ");
            push_location(out, d, f.as_str());
            push_str(out, "\n");
            assert(dv.2 == Some(f@));
            assert(out@ =~= mid + (" "@ + blue("-->"@, colors) + " "@ + location_of(dv, f@) + "\n"@));
        },
        None => {
            assert(dv.2 is None);
            assert(out@ =~= mid + Seq::<char>::empty());
        },
    }
    assert(out@ =~= old(out)@ + header_of(dv, colors));
}

fn push_row(out: &mut String, num: usize, content: &str, width: usize, colors: bool)
    ensures
        final(out)@ == old(out)@ + (blue(right_aligned(num as nat, width as nat), colors) + " "@ + blue(
            "|"@,
            colors,
        ) + " "@ + content@ + "\n"@),
{
    let mut digits = String::new();
    push_decimal(&mut digits, num as u64);
    let dl = digits.as_str().unicode_len();
    let mut aligned = String::new();
    if dl < width {
        push_repeat(&mut aligned, ' ', width - dl);
    }
    push_str(&mut aligned, digits.as_str());
    assert(aligned@ =~= right_aligned(num as nat, width as nat));
    paint_into(out, "1;34", aligned.as_str(), colors);
    push_str(out, " ");
    paint_into(out, "1;34", "|", colors);
    push_str(out, " ");
    push_str(out, content);
    push_str(out, "\n");
    assert(final(out)@ =~= old(out)@ + (blue(right_aligned(num as nat, width as nat), colors) + " "@
        + blue("|"@, colors) + " "@ + content@ + "\n"@));
}

fn push_caret(out: &mut String, d: &Diagnostic, content: &str, width: usize, colors: bool)
    ensures
        final(out)@ == old(out)@ + caret_line(diag_view(*d), content@, repeat(' ', width as nat), colors),
{
    match d.column {
        Some(col) => {
            let off: usize = if col >= 1 {
                col - 1
            } else {
                0
            };
            let tl = extract_token_length(content, off);
            let mut mark = String::new();
            push_repeat(&mut mark, ' ', off);
            push_repeat(&mut mark, '^', tl);
            push_str(&mut mark, " ");
            let ann = short_annotation(d.message.as_str());
            push_str(&mut mark, ann.as_str());
            push_repeat(out, ' ', width);
            push_str(out, " ");
            paint_into(out, "1;34", "|", colors);
            push_str(out, " ");
            match d.severity {
                Severity::Error => paint_into(out, "1;31", mark.as_str(), colors),
                Severity::Warning => paint_into(out, "1;33", mark.as_str(), colors),
            }
            push_str(out, "\n");
            assert(final(out)@ =~= old(out)@ + caret_line(diag_view(*d), content@, repeat(' ', width as nat), colors));
        },
        None => {
            assert(final(out)@ =~= old(out)@ + caret_line(diag_view(*d), content@, repeat(' ', width as nat), colors));
        },
    }
}

fn push_context(out: &mut String, d: &Diagnostic, ctx: &SourceContext, width: usize, colors: bool)
    ensures
        final(out)@ == old(out)@ + context_lines(diag_view(*d), context_view(*ctx), width as nat, colors, 0),
{
    let count = ctx.lines.len();
    let mut i: usize = 0;
    while i < count
        invariant
            count == ctx.lines@.len(),
            i <= count,
            out@ + context_lines(diag_view(*d), context_view(*ctx), width as nat, colors, i as int) == old(out)@
                + context_lines(diag_view(*d), context_view(*ctx), width as nat, colors, 0),
        decreases count - i,
    {
        let ghost before = out@;
        let num = ctx.lines[i].0;
        let content = ctx.lines[i].1.as_str();
        push_row(out, num, content, width, colors);
        let ghost after_row = out@;
        if i == ctx.error_line_index {
            push_caret(out, d, content, width, colors);
        }
        proof {
            let row = blue(right_aligned(num as nat, width as nat), colors) + " "@ + blue("|"@, colors)
                + " "@ + content@ + "\n"@;
            let caret = if i == ctx.error_line_index as nat {
                caret_line(diag_view(*d), content@, repeat(' ', width as nat), colors)
            } else {
                seq![]
            };
            assert(out@ =~= before + row + caret);
            assert(context_lines(diag_view(*d), context_view(*ctx), width as nat, colors, i as int) == row + caret
                + context_lines(diag_view(*d), context_view(*ctx), width as nat, colors, i + 1));
            assert(out@ + context_lines(diag_view(*d), context_view(*ctx), width as nat, colors, i + 1) =~= before
                + context_lines(diag_view(*d), context_view(*ctx), width as nat, colors, i as int));
        }
        i += 1;
    }
    assert(out@ =~= out@ + context_lines(diag_view(*d), context_view(*ctx), width as nat, colors, i as int));
}

/// Renders a diagnostic, with colours or without.
pub fn render_with(diagnostic: &Diagnostic, context: Option<&SourceContext>, colors: bool) -> (r: String)
    ensures
        r@ == rendered(diag_view(*diagnostic), opt_context_view(context), colors),
{
    let mut out = String::new();
    push_header(&mut out, diagnostic, colors);
    let ghost head = out@;
    match context {
        None => {
            assert(out@ =~= rendered(diag_view(*diagnostic), None, colors));
        },
        Some(ctx) => {
            let count = ctx.lines.len();
            let max_line: usize = if count == 0 {
                0
            } else {
                ctx.lines[count - 1].0
            };
            let width = decimal_width(max_line);
            proof {
                lemma_dec_str_shape(0);
            }
            assert(width == gutter_width(context_view(*ctx)));
            let ghost edge = repeat(' ', width as nat) + " "@ + blue("|"@, colors) + "\n"@;
            push_edge(&mut out, width, colors);
            push_context(&mut out, diagnostic, ctx, width, colors);
            push_edge(&mut out, width, colors);
            assert(out@ =~= head + (edge + context_lines(diag_view(*diagnostic), context_view(*ctx), width as nat, colors, 0) + edge));
        },
    }
    out
}

/// Number of decimal digits of `n`.
fn decimal_width(n: usize) -> (r: usize)
    ensures
        r == dec_len(n as nat),
{
    let mut s = String::new();
    push_decimal(&mut s, n as u64);
    s.as_str().unicode_len()
}

fn push_edge(out: &mut String, width: usize, colors: bool)
    ensures
        final(out)@ == old(out)@ + (repeat(' ', width as nat) + " "@ + blue("|"@, colors) + "\n"@),
{
    push_repeat(out, ' ', width);
    push_str(out, " ");
    paint_into(out, "1;34", "|", colors);
    push_str(out, "\n");
    assert(final(out)@ =~= old(out)@ + (repeat(' ', width as nat) + " "@ + blue("|"@, colors) + "\n"@));
}

/// Relies on `std::io::IsTerminal` for standard error: whether it is a
/// terminal, which decides whether output is coloured.
#[verifier::external_body]
pub(crate) fn use_colors() -> (r: bool) {
    std::io::IsTerminal::is_terminal(&std::io::stderr())
}

/// Renders a diagnostic, coloured when standard error is a terminal.
pub fn render(diagnostic: &Diagnostic, context: Option<&SourceContext>) -> (r: String)
    ensures
        r@ == rendered(diag_view(*diagnostic), opt_context_view(context), false) || r@ == rendered(
            diag_view(*diagnostic),
            opt_context_view(context),
            true,
        ),
{
    render_with(diagnostic, context, use_colors())
}

} // verus!
