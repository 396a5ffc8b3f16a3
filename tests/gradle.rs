use jbundle::gradle::{extract_add_modules, extract_main_class, is_skipped_dir, parse_includes};

#[test]
fn parse_includes_jabref_style() {
    let content = r#"
pluginManagement {
    includeBuild("build-logic")
}

plugins {
    id("org.jabref.gradle.build")
}

rootProject.name = "JabRef"

javaModules {
    directory(".")
    versions("versions")
    // include("jablib", "jabkit", "jabgui", "jabsrv", "jabsrv-cli", "test-support", "versions")
}
"#;
    let includes = parse_includes(content);
    assert!(includes.is_empty(), "Expected empty, got: {:?}", includes);
}

#[test]
fn parse_includes_kotlin_dsl() {
    let content = r#"
rootProject.name = "myproject"
include("module1")
include("module2", "module3")
include(":nested:submodule")
"#;
    let includes = parse_includes(content);
    assert!(includes.contains(&"module1".to_string()));
    assert!(includes.contains(&"module2".to_string()));
    assert!(includes.contains(&"nested:submodule".to_string()));
}

#[test]
fn parse_includes_groovy_dsl() {
    let content = r#"
rootProject.name = 'myproject'
include 'module1'
include ':module2', ':module3'
"#;
    let includes = parse_includes(content);
    assert!(includes.contains(&"module1".to_string()));
    assert!(includes.contains(&"module2".to_string()));
}

#[test]
fn parse_includes_without_duplicates() {
    let includes = parse_includes("include(\"a\")\ninclude(\"a\", \"b\") // include(\"c\")\n");
    assert_eq!(includes, vec!["a", "b"]);
}

#[test]
fn extract_main_class_kotlin() {
    let content = "\napplication {\n    mainClass.set(\"com.example.Main\")\n}\n";
    assert_eq!(extract_main_class(content), Some("com.example.Main".to_string()));
}

#[test]
fn extract_main_class_groovy() {
    let content = "\napplication {\n    mainClassName = 'com.example.Main'\n}\n";
    assert_eq!(extract_main_class(content), Some("com.example.Main".to_string()));
}

#[test]
fn extract_add_modules_single() {
    let content = "\njavaModulePackaging {\n    addModules.add(\"jdk.incubator.vector\")\n}\n";
    assert_eq!(extract_add_modules(content), vec!["jdk.incubator.vector"]);
}

#[test]
fn extract_add_modules_multiple() {
    let content = "\njavaModulePackaging {\n    addModules.add(\"jdk.incubator.vector\")\n    addModules.add(\"jdk.incubator.foreign\")\n}\n";
    let modules = extract_add_modules(content);
    assert!(modules.contains(&"jdk.incubator.vector".to_string()));
    assert!(modules.contains(&"jdk.incubator.foreign".to_string()));
}

#[test]
fn extract_add_modules_addall() {
    let content = "\njavaModulePackaging {\n    addModules.addAll(listOf(\"jdk.incubator.vector\", \"jdk.unsupported\"))\n}\n";
    let modules = extract_add_modules(content);
    assert!(modules.contains(&"jdk.incubator.vector".to_string()));
    assert!(modules.contains(&"jdk.unsupported".to_string()));
}

#[test]
fn skipped_directories() {
    assert!(is_skipped_dir("build-logic"));
    assert!(is_skipped_dir(".hidden"));
    assert!(!is_skipped_dir("app"));
}
