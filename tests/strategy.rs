use jbundle::deps::{analyze_build_file, find_best_jar, select_deps_strategy, BuildFileInfo, BuildScript, DepsStrategy, JarCandidate};

fn tb(f: &str) -> DepsStrategy {
    DepsStrategy::ToolsBuild { function: f.to_string() }
}

fn jar(name: &str, modified: u128) -> JarCandidate {
    JarCandidate { path: format!("/p/target/{name}"), file_name: name.to_string(), modified: Some(modified) }
}

#[test]
fn detect_strategy_root_build_clj_with_uber() {
    let build = BuildScript::Text("(ns build\n  (:require [clojure.tools.build.api :as b]))\n\n(defn uber [_]\n  (b/uber {}))\n".to_string());
    assert_eq!(select_deps_strategy(&build, Some("{}"), &vec![]), tb("uber"));
}

#[test]
fn detect_strategy_root_build_clj_with_uberjar() {
    let build = BuildScript::Text("(ns build)\n\n(defn uberjar [opts]\n  (println \"building\"))\n".to_string());
    assert_eq!(select_deps_strategy(&build, Some("{}"), &vec![]), tb("uberjar"));
}

#[test]
fn detect_strategy_root_build_clj_no_uber_fn_defaults_uber() {
    let build = BuildScript::Text("(ns build)\n\n(defn clean [_]\n  (println \"clean\"))\n".to_string());
    assert_eq!(select_deps_strategy(&build, Some("{}"), &vec![]), tb("uber"));
}

#[test]
fn detect_strategy_alias_with_ns_default() {
    let deps = r#"{:paths ["src"]
 :aliases
 {:build
  {:deps {io.github.clojure/tools.build {:mvn/version "0.10.7"}}
   :ns-default build}}}"#;
    assert_eq!(
        select_deps_strategy(&BuildScript::Absent, Some(deps), &vec![vec![]]),
        DepsStrategy::ToolsBuildAlias { alias: "build".to_string(), function: "uber".to_string() }
    );
}

#[test]
fn detect_strategy_alias_extra_path_with_main_and_b_uber() {
    let deps = r#"{:paths ["src"]
 :aliases
 {:dev
  {:deps {io.github.clojure/tools.build {:mvn/version "0.10.7"}}
   :extra-paths ["dev"]}}}"#;
    let content = "(ns build\n  (:require [clojure.tools.build.api :as b]))\n\n(defn -main [& args]\n  (b/uber {:uber-file \"target/app.jar\"}))\n";
    let info = analyze_build_file(content, "/p/dev/build.clj", "/p/dev");
    assert_eq!(
        select_deps_strategy(&BuildScript::Absent, Some(deps), &vec![vec![info]]),
        DepsStrategy::MainFunction { alias: "dev".to_string(), namespace: "build".to_string(), args: vec!["--uberjar".to_string()] }
    );
}

#[test]
fn detect_strategy_alias_extra_path_with_uber_fn() {
    let deps = r#"{:paths ["src"]
 :aliases
 {:dev
  {:deps {io.github.clojure/tools.build {:mvn/version "0.10.7"}}
   :extra-paths ["dev"]}}}"#;
    let content = "(ns build\n  (:require [clojure.tools.build.api :as b]))\n\n(defn uber [_]\n  (b/uber {}))\n";
    let info = analyze_build_file(content, "/p/dev/build.clj", "/p/dev");
    assert_eq!(
        select_deps_strategy(&BuildScript::Absent, Some(deps), &vec![vec![info]]),
        DepsStrategy::ToolsBuildAlias { alias: "dev".to_string(), function: "uber".to_string() }
    );
}

#[test]
fn detect_strategy_uberjar_alias() {
    assert_eq!(select_deps_strategy(&BuildScript::Absent, Some("{:aliases {:uberjar {:some :config}}}"), &vec![]), DepsStrategy::Uberjar);
}

#[test]
fn detect_strategy_fallback() {
    assert_eq!(select_deps_strategy(&BuildScript::Absent, Some("{:paths [\"src\"]}"), &vec![]), tb("uber"));
    assert_eq!(select_deps_strategy(&BuildScript::Unreadable, Some("{:aliases {:uberjar {}}}"), &vec![]), tb("uber"));
}

#[test]
fn build_file_namespace_from_path() {
    let info: BuildFileInfo = analyze_build_file("(defn -main [] (tools.build.api/uber {}))", "/p/dev/my_co/build.clj", "/p/dev");
    assert_eq!(info.namespace, "my-co.build");
    assert!(info.has_main_fn && info.has_b_uber_call);
    assert_eq!(info.has_uber_fn, None);
}

#[test]
fn find_uberjar_prefers_standalone_jar() {
    let c = vec![jar("app.jar", 1), jar("app-standalone.jar", 1)];
    assert!(c[find_best_jar(&c).unwrap()].file_name.contains("standalone"));
}

#[test]
fn find_uberjar_prefers_uber_jar() {
    let c = vec![jar("app.jar", 2), jar("app-uber.jar", 1)];
    assert!(c[find_best_jar(&c).unwrap()].file_name.contains("uber"));
}

#[test]
fn find_uberjar_falls_back_to_any_jar() {
    let c = vec![jar("myapp.jar", 1)];
    assert_eq!(c[find_best_jar(&c).unwrap()].file_name, "myapp.jar");
}

#[test]
fn find_uberjar_excludes_sources_and_javadoc() {
    let c = vec![jar("app-sources.jar", 3), jar("app-javadoc.jar", 3), jar("app.jar", 1)];
    assert_eq!(c[find_best_jar(&c).unwrap()].file_name, "app.jar");
}

#[test]
fn find_uberjar_error_when_no_jars() {
    let c = vec![jar("readme.txt", 1)];
    assert_eq!(find_best_jar(&c), None);
}

#[test]
fn find_best_jar_prefers_jar_with_dependencies() {
    let c = vec![jar("app-1.0.jar", 5), jar("app-1.0-jar-with-dependencies.jar", 1)];
    assert!(c[find_best_jar(&c).unwrap()].path.contains("jar-with-dependencies"));
}

#[test]
fn find_best_jar_prefers_all_jar() {
    let c = vec![jar("app-1.0.jar", 1), jar("app-1.0-all.jar", 1)];
    assert!(c[find_best_jar(&c).unwrap()].path.contains("-all"));
}

#[test]
fn find_best_jar_excludes_plain_and_original() {
    let c = vec![jar("app-plain.jar", 9), jar("app.jar.original", 9), jar("app.jar", 1)];
    assert_eq!(c[find_best_jar(&c).unwrap()].file_name, "app.jar");
}

#[test]
fn find_best_jar_newest_wins() {
    let c = vec![jar("a-standalone.jar", 5), jar("b-standalone.jar", 7), jar("c-standalone.jar", 6)];
    assert_eq!(find_best_jar(&c), Some(1));
    let c = vec![jar("a.jar", 5), JarCandidate { path: "b.jar".into(), file_name: "b.jar".into(), modified: None }];
    assert_eq!(find_best_jar(&c), Some(0));
}
