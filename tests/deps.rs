use jbundle::deps::{
    detect_build_function, detect_namespace, extract_balanced_block, extract_extra_paths, parse_aliases_with_tools_build,
    path_to_namespace, DepsStrategy,
};

#[test]
fn detect_build_function_finds_uber() {
    let content = "(ns build)\n\n(defn clean [_] nil)\n\n(defn uber [opts]\n  (b/uber opts))\n";
    assert_eq!(detect_build_function(content), Some("uber".to_string()));
}

#[test]
fn detect_build_function_finds_uberjar() {
    let content = "(ns build)\n\n(defn uberjar [_] nil)\n";
    assert_eq!(detect_build_function(content), Some("uberjar".to_string()));
}

#[test]
fn detect_build_function_none_when_missing() {
    let content = "(ns build)\n\n(defn clean [_] nil)\n(defn compile [_] nil)\n";
    assert_eq!(detect_build_function(content), None);
}

#[test]
fn detect_build_function_handles_crlf_and_indent() {
    assert_eq!(detect_build_function("(ns b)\r\n   (defn uber[x] x)\r\n"), Some("uber".to_string()));
    assert_eq!(detect_build_function("(defn uber-all [x] x)"), None);
}

#[test]
fn path_to_namespace_simple() {
    assert_eq!(path_to_namespace("/project/dev/build.clj", "/project/dev"), "build");
}

#[test]
fn path_to_namespace_nested() {
    assert_eq!(path_to_namespace("/project/dev/com/foo/build.clj", "/project/dev"), "com.foo.build");
}

#[test]
fn path_to_namespace_with_underscores() {
    assert_eq!(path_to_namespace("/project/src/my_app/core.clj", "/project/src"), "my-app.core");
}

#[test]
fn path_to_namespace_outside_base() {
    assert_eq!(path_to_namespace("other/x.clj", "/project/src"), "other.x");
    assert_eq!(path_to_namespace("/project/srcx/a.clj", "/project/src"), ".project.srcx.a");
}

#[test]
fn extract_balanced_block_simple() {
    assert_eq!(extract_balanced_block("{:a 1}", 0), Some((0, 5)));
}

#[test]
fn extract_balanced_block_nested() {
    assert_eq!(extract_balanced_block("{:a {:b 2} :c 3}", 0), Some((0, 15)));
}

#[test]
fn extract_balanced_block_with_strings() {
    let content = r#"{:a "hello {world}" :b 1}"#;
    assert_eq!(extract_balanced_block(content, 0), Some((0, 24)));
}

#[test]
fn extract_balanced_block_not_at_brace() {
    let content = "abc{def}";
    assert_eq!(extract_balanced_block(content, 0), None);
    assert_eq!(extract_balanced_block(content, 3), Some((3, 7)));
}

#[test]
fn extract_balanced_block_unclosed() {
    assert_eq!(extract_balanced_block("{:a {:b 1}", 0), None);
    assert_eq!(extract_balanced_block(r#"{"a\"}" }"#, 0), Some((0, 8)));
}

#[test]
fn parse_aliases_with_tools_build_finds_build_alias() {
    let deps = r#"{:aliases {:build {:deps {io.github.clojure/tools.build {:mvn/version "0.10.7"}} :ns-default build}}}"#;
    let aliases = parse_aliases_with_tools_build(deps);
    assert_eq!(aliases.len(), 1);
    assert_eq!(aliases[0].name, "build");
    assert!(aliases[0].has_ns_default);
}

#[test]
fn parse_aliases_with_tools_build_finds_extra_paths() {
    let deps = r#"{:aliases {:dev {:deps {io.github.clojure/tools.build {:mvn/version "0.10.7"}} :extra-paths ["dev" "test"]}}}"#;
    let aliases = parse_aliases_with_tools_build(deps);
    assert_eq!(aliases.len(), 1);
    assert_eq!(aliases[0].name, "dev");
    assert!(!aliases[0].has_ns_default);
    assert_eq!(aliases[0].extra_paths, vec!["dev", "test"]);
}

#[test]
fn parse_aliases_skips_non_tools_build() {
    let deps = r#"{:aliases {:test {:deps {lambdaisland/kaocha {:mvn/version "1.0"}}}}}"#;
    let aliases = parse_aliases_with_tools_build(deps);
    assert!(aliases.is_empty());
}

#[test]
fn parse_aliases_several() {
    let deps = r#"{:paths ["src"]
 :aliases
 {:test {:extra-deps {lambdaisland/kaocha {:mvn/version "1.0"}}}
  :build {:deps {io.github.clojure/tools.build {:mvn/version "0.10.7"}}
          :ns-default build}}}"#;
    let aliases = parse_aliases_with_tools_build(deps);
    assert_eq!(aliases.len(), 1);
    assert_eq!(aliases[0].name, "build");
    assert!(parse_aliases_with_tools_build("{:paths [\"src\"]}").is_empty());
}

#[test]
fn extra_paths_quoted_strings() {
    assert_eq!(extract_extra_paths(r#":extra-paths ["a" "" "b c"]"#), vec!["a", "b c"]);
    assert!(extract_extra_paths(":extra-paths dev").is_empty());
}

#[test]
fn strategy_to_args_tools_build() {
    let s = DepsStrategy::ToolsBuild { function: "uber".to_string() };
    assert_eq!(s.to_args(), vec!["-T:build", "uber"]);
}

#[test]
fn strategy_to_args_tools_build_alias() {
    let s = DepsStrategy::ToolsBuildAlias { alias: "dev".to_string(), function: "uberjar".to_string() };
    assert_eq!(s.to_args(), vec!["-T:dev", "uberjar"]);
}

#[test]
fn strategy_to_args_main_function() {
    let s = DepsStrategy::MainFunction {
        alias: "dev".to_string(),
        namespace: "com.foo.build".to_string(),
        args: vec!["--uberjar".to_string()],
    };
    assert_eq!(s.to_args(), vec!["-M:dev", "-m", "com.foo.build", "--uberjar"]);
}

#[test]
fn strategy_to_args_uberjar() {
    let s = DepsStrategy::Uberjar;
    assert_eq!(s.to_args(), vec!["-X:uberjar"]);
}

#[test]
fn detect_namespace_from_ns_form() {
    let content = "(ns com.example.build\n  (:require [clojure.tools.build.api :as b]))\n";
    assert_eq!(detect_namespace(content), Some("com.example.build".to_string()));
}

#[test]
fn detect_namespace_none_when_missing() {
    let content = "(defn foo [] nil)\n";
    assert_eq!(detect_namespace(content), None);
}
