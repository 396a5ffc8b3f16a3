use jbundle::diagnostic::{extract_token_length, render, render_with, short_annotation, Diagnostic, Severity, SourceContext};

#[test]
fn render_error_without_context() {
    let diag = Diagnostic {
        severity: Severity::Error,
        message: "Unable to resolve symbol: prntln".to_string(),
        file: Some("src/example/core.clj".to_string()),
        line: Some(9),
        column: Some(5),
    };
    let output = render(&diag, None);
    assert!(output.contains("error"));
    assert!(output.contains("Unable to resolve symbol: prntln"));
    assert!(output.contains("src/example/core.clj:9:5"));
}

#[test]
fn render_error_with_context() {
    let diag = Diagnostic {
        severity: Severity::Error,
        message: "Unable to resolve symbol: prntln".to_string(),
        file: Some("src/example/core.clj".to_string()),
        line: Some(9),
        column: Some(5),
    };
    let ctx = SourceContext {
        lines: vec![
            (7, "(defn process-data [data]".to_string()),
            (8, "  (let [result (map inc data)]".to_string()),
            (9, "    (prntln \"Processing:\" result)".to_string()),
            (10, "    (reduce + result)))".to_string()),
        ],
        error_line_index: 2,
    };
    let output = render(&diag, Some(&ctx));
    assert!(output.contains("error"));
    assert!(output.contains("prntln"));
    assert!(output.contains("symbol not found"));
}

#[test]
fn render_plain_layout_exact() {
    let diag = Diagnostic {
        severity: Severity::Error,
        message: "Unable to resolve symbol: prntln".to_string(),
        file: Some("src/core.clj".to_string()),
        line: Some(9),
        column: Some(5),
    };
    let ctx = SourceContext {
        lines: vec![(9, "    (prntln \"x\")".to_string()), (10, "  nil)".to_string())],
        error_line_index: 0,
    };
    let expected = "error: Unable to resolve symbol: prntln\n --> src/core.clj:9:5\n   |\n 9 |     (prntln \"x\")\n   |     ^^^^^^^ symbol not found\n10 |   nil)\n   |\n";
    assert_eq!(render_with(&diag, Some(&ctx), false), expected);
    let coloured = render_with(&diag, None, true);
    assert!(coloured.starts_with("\x1b[1;31merror\x1b[0m: "));
}

#[test]
fn render_warning() {
    let diag = Diagnostic {
        severity: Severity::Warning,
        message: "unchecked cast".to_string(),
        file: Some("App.java".to_string()),
        line: Some(5),
        column: Some(1),
    };
    let output = render(&diag, None);
    assert!(output.contains("warning"));
    assert!(output.contains("unchecked cast"));
}

#[test]
fn extract_token_length_simple() {
    assert_eq!(extract_token_length("    (prntln \"hello\")", 5), 6);
}

#[test]
fn extract_token_length_with_paren_prefix() {
    assert_eq!(extract_token_length("    (prntln \"hello\")", 4), 7);
}

#[test]
fn extract_token_length_at_end() {
    assert_eq!(extract_token_length("foo", 0), 3);
}

#[test]
fn extract_token_length_beyond_line() {
    assert_eq!(extract_token_length("hi", 10), 1);
}

#[test]
fn short_annotation_symbol() {
    assert_eq!(short_annotation("Unable to resolve symbol: prntln"), "symbol not found");
}

#[test]
fn short_annotation_long_message() {
    let msg = "This is a very long error message that should be truncated for display";
    let result = short_annotation(msg);
    assert!(result.len() <= 43);
    assert!(result.ends_with("..."));
    assert_eq!(result, "This is a very long error message tha...");
}
