use jbundle::config::BuildSystem;
use jbundle::diagnostic::Severity;
use jbundle::parser::{parse, source_candidates, source_context, split_lines};

#[test]
fn parse_clojure_syntax_error() {
    let stderr = "Syntax error compiling at (src/example/core.clj:9:5).\nUnable to resolve symbol: prntln in this context";
    let diags = parse(stderr, "", BuildSystem::DepsEdn);
    assert_eq!(diags.len(), 1);
    assert_eq!(diags[0].severity, Severity::Error);
    assert_eq!(diags[0].file.as_deref().unwrap(), "src/example/core.clj");
    assert_eq!(diags[0].line, Some(9));
    assert_eq!(diags[0].column, Some(5));
    assert!(diags[0].message.contains("prntln"));
}

#[test]
fn parse_clojure_compiler_exception() {
    let stderr = "Caused by: clojure.lang.Compiler$CompilerException: Syntax error compiling at (src/app.clj:15:3).\nCaused by: java.lang.RuntimeException: Unable to resolve symbol: foo in this context";
    let diags = parse(stderr, "", BuildSystem::Leiningen);
    assert_eq!(diags.len(), 1);
    assert_eq!(diags[0].line, Some(15));
    assert!(diags[0].message.contains("foo"));
}

#[test]
fn parse_maven_error() {
    let stdout = "[ERROR] /home/user/project/src/main/java/App.java:[12,15] cannot find symbol\n[WARNING] /home/user/project/src/main/java/App.java:[5,1] unchecked cast";
    let diags = parse("", stdout, BuildSystem::Maven);
    assert_eq!(diags.len(), 2);
    assert_eq!(diags[0].severity, Severity::Error);
    assert_eq!(diags[0].line, Some(12));
    assert_eq!(diags[0].column, Some(15));
    assert!(diags[0].message.contains("cannot find symbol"));
    assert_eq!(diags[1].severity, Severity::Warning);
}

#[test]
fn parse_gradle_javac_error() {
    let stderr = "src/main/java/App.java:10: error: cannot find symbol\nsrc/main/java/App.java:20: warning: deprecated API";
    let diags = parse(stderr, "", BuildSystem::Gradle);
    assert_eq!(diags.len(), 2);
    assert_eq!(diags[0].severity, Severity::Error);
    assert_eq!(diags[0].line, Some(10));
    assert_eq!(diags[1].severity, Severity::Warning);
    assert_eq!(diags[1].line, Some(20));
}

#[test]
fn parse_gradle_kotlin_error() {
    let stderr = "e: file:///home/user/project/src/main/kotlin/App.kt:5:10 Unresolved reference: foo\nw: file:///home/user/project/src/main/kotlin/App.kt:8:1 Variable is never used";
    let diags = parse(stderr, "", BuildSystem::Gradle);
    assert_eq!(diags.len(), 2);
    assert_eq!(diags[0].severity, Severity::Error);
    assert_eq!(diags[0].line, Some(5));
    assert_eq!(diags[0].column, Some(10));
    assert!(diags[0].message.contains("Unresolved reference"));
    assert_eq!(diags[1].severity, Severity::Warning);
}

#[test]
fn parse_empty_stderr_returns_empty() {
    assert!(parse("", "", BuildSystem::DepsEdn).is_empty());
}

#[test]
fn parse_unrecognized_format_returns_empty() {
    assert!(parse("Some random error that doesn't match any pattern", "", BuildSystem::DepsEdn).is_empty());
}

#[test]
fn parse_standalone_symbol_error() {
    let diags = parse("Unable to resolve symbol: xyz in this context", "", BuildSystem::DepsEdn);
    assert_eq!(diags.len(), 1);
    assert_eq!(diags[0].message, "Unable to resolve symbol: xyz");
    assert_eq!(diags[0].file, None);
}

#[test]
fn lines_like_str_lines() {
    for s in ["", "a", "a\n", "a\r\nb", "\n\n", "x\ry\n", "tail\r"] {
        let expected: Vec<String> = s.lines().map(String::from).collect();
        assert_eq!(split_lines(s), expected, "input {s:?}");
    }
}

#[test]
fn read_context_middle_of_file() {
    let ctx = source_context("line1\nline2\nline3\nline4\nline5\nline6\nline7\n", 4, 2).unwrap();
    assert_eq!(ctx.lines.len(), 5);
    assert_eq!(ctx.lines[0], (2, "line2".to_string()));
    assert_eq!(ctx.lines[4], (6, "line6".to_string()));
    assert_eq!(ctx.error_line_index, 2);
}

#[test]
fn read_context_beginning_of_file() {
    let ctx = source_context("line1\nline2\nline3\nline4\nline5\n", 1, 2).unwrap();
    assert_eq!(ctx.lines.len(), 3);
    assert_eq!(ctx.lines[0], (1, "line1".to_string()));
    assert_eq!(ctx.error_line_index, 0);
}

#[test]
fn read_context_end_of_file() {
    let ctx = source_context("line1\nline2\nline3\nline4\nline5\n", 5, 2).unwrap();
    assert_eq!(ctx.lines.len(), 3);
    assert_eq!(ctx.lines[2], (5, "line5".to_string()));
    assert_eq!(ctx.error_line_index, 2);
}

#[test]
fn read_context_invalid_line_zero() {
    assert!(source_context("line1\nline2\n", 0, 2).is_none());
}

#[test]
fn read_context_line_beyond_file() {
    assert!(source_context("line1\nline2\n", 100, 2).is_none());
}

#[test]
fn read_context_single_line_file() {
    let ctx = source_context("only line", 1, 2).unwrap();
    assert_eq!(ctx.lines.len(), 1);
    assert_eq!(ctx.lines[0], (1, "only line".to_string()));
    assert_eq!(ctx.error_line_index, 0);
}

#[test]
fn source_file_candidates() {
    assert_eq!(source_candidates("/p", "/abs/A.java"), vec!["/abs/A.java"]);
    assert_eq!(
        source_candidates("/p", "example/core.clj"),
        vec![
            "/p/example/core.clj",
            "/p/src/example/core.clj",
            "/p/src/main/java/example/core.clj",
            "/p/src/main/kotlin/example/core.clj",
            "/p/src/main/clj/example/core.clj",
        ]
    );
}

#[test]
fn format_build_error_with_parseable_error() {
    let source = "(ns example.core)\n\n(defn greet [name]\n  (str \"Hello, \" name))\n\n(defn process []\n  (prntln \"hello\"))\n";
    let files = vec![("/proj/src/example/core.clj".to_string(), source.to_string())];
    let stderr = "Syntax error compiling at (src/example/core.clj:7:3).\nUnable to resolve symbol: prntln in this context";
    let result = jbundle::parser::format_build_error_with(stderr, "", BuildSystem::DepsEdn, "/proj", &files, false);
    assert!(result.contains("error"));
    assert!(result.contains("prntln"));
    assert!(result.contains("src/example/core.clj:7:3"));
    assert!(result.contains("7 |   (prntln \"hello\")"));
    assert!(result.contains("^^^^^^^ symbol not found"));
}

#[test]
fn format_build_error_fallback_on_unknown_format() {
    let stderr = "Some unknown error format\nwith multiple lines";
    let result = jbundle::parser::format_build_error(stderr, "", BuildSystem::DepsEdn, "/proj", &vec![]);
    assert_eq!(result, stderr);
}

#[test]
fn format_build_error_missing_source_file() {
    let stderr = "Syntax error compiling at (src/missing.clj:5:1).\nUnable to resolve symbol: xyz in this context";
    let result = jbundle::parser::format_build_error(stderr, "", BuildSystem::DepsEdn, "/proj", &vec![]);
    assert!(result.contains("error"));
    assert!(result.contains("xyz"));
    assert!(!result.contains(" |"));
}
