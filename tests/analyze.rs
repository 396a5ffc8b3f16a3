use jbundle::analyze::{analyze_entries, format_number, large_resource_message, ArchiveEntry};

fn file(name: &str, content: &[u8]) -> ArchiveEntry {
    ArchiveEntry { name: name.to_string(), is_dir: false, size: content.len() as u64 }
}

#[test]
fn analyze_empty_jar() {
    let report = analyze_entries("app.jar", 22, &Vec::new());
    assert_eq!(report.entry_count, 0);
    assert!(report.categories.is_empty());
    assert!(report.top_packages.is_empty());
    assert!(report.issues.is_empty());
}

#[test]
fn analyze_simple_jar() {
    let entries = vec![
        file("com/example/Main.class", b"fake class bytes"),
        file("META-INF/MANIFEST.MF", b"Manifest-Version: 1.0\n"),
        file("config.edn", b"{:port 8080}"),
    ];
    let report = analyze_entries("app.jar", 300, &entries);
    assert_eq!(report.entry_count, 3);

    let class_cat = report.categories.iter().find(|c| c.name == "Classes");
    assert!(class_cat.is_some());
    assert_eq!(class_cat.unwrap().file_count, 1);

    let meta_cat = report.categories.iter().find(|c| c.name == "Metadata");
    assert!(meta_cat.is_some());
    assert_eq!(meta_cat.unwrap().file_count, 1);

    let res_cat = report.categories.iter().find(|c| c.name == "Resources");
    assert!(res_cat.is_some());
    assert_eq!(res_cat.unwrap().file_count, 1);
}

#[test]
fn analyze_detects_large_resources() {
    let entries = vec![ArchiveEntry { name: "data/model.bin".to_string(), is_dir: false, size: 2 * 1024 * 1024 }];
    let report = analyze_entries("app.jar", 2100, &entries);
    let large_issue = report.issues.iter().find(|i| i.message.contains("Large resource"));
    assert!(large_issue.is_some());
    assert!(large_issue.unwrap().message.contains("data/model.bin"));
    assert_eq!(large_issue.unwrap().message, "Large resource: data/model.bin (2.00 MiB)");
}

#[test]
fn analyze_large_threshold_is_inclusive() {
    let entries = vec![
        ArchiveEntry { name: "a.bin".to_string(), is_dir: false, size: 1_048_576 },
        ArchiveEntry { name: "b.bin".to_string(), is_dir: false, size: 1_048_575 },
        ArchiveEntry { name: "META-INF/big.bin".to_string(), is_dir: false, size: 5_000_000 },
    ];
    let report = analyze_entries("app.jar", 0, &entries);
    let msgs: Vec<&str> = report.issues.iter().map(|i| i.message.as_str()).collect();
    assert_eq!(msgs, vec!["Large resource: a.bin (1.00 MiB)"]);
}

#[test]
fn analyze_shrink_estimate() {
    let entries = vec![
        file("com/example/Main.class", b"class bytes"),
        file("META-INF/maven/com/pom.xml", b"<project/>"),
        file("META-INF/CERT.SF", b"signature"),
        file("com/example/Main.java", b"class Main {}"),
    ];
    let report = analyze_entries("app.jar", 0, &entries);
    assert!(report.shrink_estimate.removable_files > 0);
    assert!(report.shrink_estimate.removable_size > 0);
    assert_eq!(report.shrink_estimate.removable_files, 3);
    assert_eq!(report.shrink_estimate.removable_size, 10 + 9 + 13);
}

#[test]
fn analyze_clojure_namespaces() {
    let entries = vec![file("myapp/core__init.class", b"init class"), file("clojure/core__init.class", b"clojure core init")];
    let report = analyze_entries("app.jar", 0, &entries);
    assert!(!report.clojure_namespaces.is_empty());
    let ns_names: Vec<&str> = report.clojure_namespaces.iter().map(|n| n.0.as_str()).collect();
    assert!(ns_names.contains(&"myapp.core"));
    assert!(ns_names.contains(&"clojure.core"));
    assert_eq!(ns_names, vec!["clojure.core", "myapp.core"]);
}

#[test]
fn analyze_package_grouping() {
    let entries = vec![
        file("org/apache/commons/lang3/StringUtils.class", b"class bytes"),
        file("org/apache/commons/lang3/ArrayUtils.class", b"class bytes"),
        file("com/google/guava/Foo.class", b"class bytes"),
    ];
    let report = analyze_entries("app.jar", 0, &entries);
    assert!(!report.top_packages.is_empty());
    let pkg_names: Vec<&str> = report.top_packages.iter().map(|p| p.0.as_str()).collect();
    assert!(pkg_names.contains(&"org.apache.commons"));
    assert!(pkg_names.contains(&"com.google.guava"));
    assert_eq!(report.top_packages[0], ("org.apache.commons".to_string(), 22, 2));
}

#[test]
fn analyze_top_packages_truncated() {
    let entries: Vec<ArchiveEntry> = (0..25).map(|i| ArchiveEntry { name: format!("p{i}/q/A.class"), is_dir: false, size: i }).collect();
    let report = analyze_entries("app.jar", 0, &entries);
    assert_eq!(report.top_packages.len(), 20);
    assert_eq!(report.top_packages[0].0, "p24.q");
    assert_eq!(report.top_packages[19].0, "p5.q");
}

#[test]
fn analyze_duplicates_and_directories() {
    let entries = vec![
        ArchiveEntry { name: "b/".to_string(), is_dir: true, size: 0 },
        file("b/B.class", b"xx"),
        file("a/A.class", b"x"),
        file("b/B.class", b"yyy"),
        file("a/A.class", b"z"),
        file("a/A.class", b"z"),
    ];
    let report = analyze_entries("app.jar", 0, &entries);
    assert_eq!(report.entry_count, 6);
    assert_eq!(report.total_uncompressed, 8);
    let msgs: Vec<&str> = report.issues.iter().map(|i| i.message.as_str()).collect();
    assert_eq!(msgs, vec!["Duplicate class: a/A.class (3 occurrences)", "Duplicate class: b/B.class (2 occurrences)"]);
}

#[test]
fn format_number_with_commas() {
    assert_eq!(format_number(0), "0");
    assert_eq!(format_number(999), "999");
    assert_eq!(format_number(1_000), "1,000");
    assert_eq!(format_number(12_345), "12,345");
    assert_eq!(format_number(1_234_567), "1,234,567");
    assert_eq!(format_number(1_000_001), "1,000,001");
}

#[test]
fn percentages_use_uncompressed_total() {
    let entries = vec![file("com/example/Main.class", b"fake class bytes here"), file("config.edn", b"{:port 8080}")];
    let report = analyze_entries("app.jar", 0, &entries);
    let sum: u64 = report.categories.iter().map(|c| c.size).sum();
    assert_eq!(sum, report.total_uncompressed);
    assert!(report.total_uncompressed > 0);
    assert_eq!(report.categories[0].name, "Classes");
}

#[test]
fn large_resource_message_text() {
    assert_eq!(large_resource_message("x.bin", "3 B"), "Large resource: x.bin (3 B)");
}
