use jbundle::shrink::{shrink_plan, should_skip, ShrinkResult};

#[test]
fn skip_maven_metadata() {
    assert!(should_skip("META-INF/maven/org.clojure/clojure/pom.xml"));
    assert!(should_skip("META-INF/maven/org.clojure/clojure/pom.properties"));
}

#[test]
fn skip_signatures() {
    assert!(should_skip("META-INF/CERT.SF"));
    assert!(should_skip("META-INF/CERT.DSA"));
    assert!(should_skip("META-INF/CERT.RSA"));
}

#[test]
fn skip_java_sources() {
    assert!(should_skip("com/example/Main.java"));
    assert!(should_skip("org/apache/SomeClass.java"));
}

#[test]
fn skip_leiningen_metadata() {
    assert!(should_skip("META-INF/leiningen/myapp/project.clj"));
    assert!(should_skip("project.clj"));
}

#[test]
fn keep_class_files() {
    assert!(!should_skip("com/example/Main.class"));
    assert!(!should_skip("clojure/core__init.class"));
}

#[test]
fn keep_clj_sources() {
    assert!(!should_skip("clojure/core.clj"));
    assert!(!should_skip("myapp/core.clj"));
}

#[test]
fn keep_resources() {
    assert!(!should_skip("config.edn"));
    assert!(!should_skip("logback.xml"));
    assert!(!should_skip("META-INF/MANIFEST.MF"));
}

#[test]
fn keep_license_files() {
    assert!(!should_skip("META-INF/LICENSE.txt"));
    assert!(!should_skip("META-INF/NOTICE.txt"));
}

#[test]
fn skip_meta_inf_docs() {
    assert!(should_skip("META-INF/README.md"));
    assert!(should_skip("META-INF/CHANGELOG.md"));
}

#[test]
fn docs_rule_is_case_insensitive() {
    assert!(should_skip("META-INF/Readme.MD"));
    assert!(!should_skip("META-INF/license.html"));
    assert!(!should_skip("META-INF/sub/License-APACHE.TXT"));
    assert!(!should_skip("docs/README.md"));
    assert!(should_skip("META-INF/CERT.EC"));
}

#[test]
fn shrink_removes_skippable_entries() {
    let names: Vec<String> = vec![
        "META-INF/MANIFEST.MF".to_string(),
        "com/example/Main.class".to_string(),
        "myapp/core.clj".to_string(),
        "META-INF/maven/com/pom.xml".to_string(),
        "META-INF/CERT.SF".to_string(),
        "com/example/Main.java".to_string(),
    ];
    let plan = shrink_plan(&names);
    let kept: Vec<&str> = plan.iter().map(|&i| names[i].as_str()).collect();
    assert!(kept.contains(&"META-INF/MANIFEST.MF"));
    assert!(kept.contains(&"com/example/Main.class"));
    assert!(kept.contains(&"myapp/core.clj"));
    assert!(!kept.contains(&"META-INF/maven/com/pom.xml"));
    assert!(!kept.contains(&"META-INF/CERT.SF"));
    assert!(!kept.contains(&"com/example/Main.java"));
}

#[test]
fn shrink_scenario_keeps_exactly_the_class() {
    let names: Vec<String> = vec![
        "com/App.class".to_string(),
        "META-INF/maven/pom.xml".to_string(),
        "META-INF/CERT.SF".to_string(),
        "com/App.java".to_string(),
    ];
    assert_eq!(shrink_plan(&names), vec![0]);
}

#[test]
fn shrink_plan_of_empty_archive_is_empty() {
    let names: Vec<String> = Vec::new();
    assert!(shrink_plan(&names).is_empty());
}

#[test]
fn effective_archive_is_the_smaller() {
    let smaller = ShrinkResult { jar_path: "a.shrunk.jar".to_string(), original_size: 100, shrunk_size: 80 };
    assert_eq!(smaller.effective_path("a.jar"), "a.shrunk.jar");
    assert_eq!(smaller.effective_size(), 80);
    let larger = ShrinkResult { jar_path: "a.shrunk.jar".to_string(), original_size: 100, shrunk_size: 120 };
    assert_eq!(larger.effective_path("a.jar"), "a.jar");
    assert_eq!(larger.effective_size(), 100);
    let equal = ShrinkResult { jar_path: "a.shrunk.jar".to_string(), original_size: 100, shrunk_size: 100 };
    assert_eq!(equal.effective_path("a.jar"), "a.jar");
}
