use jbundle::error::PackError;
use jbundle::validate::{detect_max_class_version, read_class_major_version, resolve_java_version, ClassHeader};

fn make_class_bytes(major: u16) -> Vec<u8> {
    let mut buf = vec![0xCA, 0xFE, 0xBA, 0xBE, 0x00, 0x00];
    buf.extend_from_slice(&major.to_be_bytes());
    buf
}

fn jar(classes: &[(&str, Vec<u8>)]) -> Vec<ClassHeader> {
    classes.iter().map(|(n, b)| ClassHeader { name: n.to_string(), header: b.clone() }).collect()
}

fn resolve(entries: &[(&str, Vec<u8>)], configured: u8, explicit: bool) -> Result<u8, PackError> {
    resolve_java_version(detect_max_class_version(&jar(entries)), configured, explicit)
}

#[test]
fn compatible_version_returns_configured() {
    let result = resolve(&[("com/example/Main.class", make_class_bytes(61))], 21, false).unwrap();
    assert_eq!(result, 21);
}

#[test]
fn explicit_incompatible_errors() {
    let result = resolve(&[("com/example/Main.class", make_class_bytes(65))], 17, true);
    assert!(result.is_err());
    match result.unwrap_err() {
        PackError::JavaVersionMismatch { required, configured, class_version, .. } => {
            assert_eq!(required, 21);
            assert_eq!(configured, 17);
            assert_eq!(class_version, 65);
        }
        other => panic!("expected JavaVersionMismatch, got: {other:?}"),
    }
}

#[test]
fn implicit_incompatible_upgrades() {
    let result = resolve(&[("com/example/Main.class", make_class_bytes(65))], 17, false).unwrap();
    assert_eq!(result, 21);
}

#[test]
fn jar_without_classes_returns_configured() {
    let result = resolve(&[("META-INF/MANIFEST.MF", b"Manifest-Version: 1.0\n".to_vec())], 21, false).unwrap();
    assert_eq!(result, 21);
}

#[test]
fn finds_highest_among_multiple() {
    let result = resolve(
        &[
            ("com/example/A.class", make_class_bytes(55)),
            ("com/example/B.class", make_class_bytes(65)),
            ("com/example/C.class", make_class_bytes(61)),
        ],
        11,
        false,
    )
    .unwrap();
    assert_eq!(result, 21);
}

#[test]
fn skips_multi_release_entries() {
    let result = resolve(
        &[
            ("com/example/Main.class", make_class_bytes(55)),
            ("META-INF/versions/21/com/Foo.class", make_class_bytes(65)),
        ],
        11,
        false,
    )
    .unwrap();
    assert_eq!(result, 11);
}

#[test]
fn skips_invalid_magic() {
    let result = resolve(
        &[
            ("Bad.class", vec![0x00, 0x00, 0x00, 0x00, 0x00, 0x00, 0x00, 65]),
            ("Good.class", make_class_bytes(55)),
        ],
        11,
        false,
    )
    .unwrap();
    assert_eq!(result, 11);
}

#[test]
fn handles_short_data() {
    let result = resolve(&[("Short.class", vec![0xCA, 0xFE, 0xBA, 0xBE])], 21, false).unwrap();
    assert_eq!(result, 21);
}

#[test]
fn pipeline_resolves_newer_archive_version() {
    let entries = [
        ("com/x/Main.class", vec![0xCA, 0xFE, 0xBA, 0xBE, 0x00, 0x00, 0x00, 0x41]),
        ("META-INF/MANIFEST.MF", b"Manifest-Version: 1.0\n".to_vec()),
    ];
    assert_eq!(resolve(&entries, 17, false).unwrap(), 21);
}

#[test]
fn pipeline_rejects_explicit_older_version() {
    let entries = [
        ("com/x/Main.class", vec![0xCA, 0xFE, 0xBA, 0xBE, 0x00, 0x00, 0x00, 0x41]),
        ("META-INF/MANIFEST.MF", b"Manifest-Version: 1.0\n".to_vec()),
    ];
    match resolve(&entries, 17, true) {
        Err(PackError::JavaVersionMismatch { required, configured, class_version, class_file }) => {
            assert_eq!((required, configured, class_version), (21, 17, 65));
            assert_eq!(class_file, "com/x/Main.class");
        }
        other => panic!("unexpected {other:?}"),
    }
}

#[test]
fn probe_reads_at_most_the_limit() {
    let mut entries: Vec<(String, Vec<u8>)> = (0..200).map(|i| (format!("p/C{i}.class"), make_class_bytes(52))).collect();
    entries.push(("p/Late.class".to_string(), make_class_bytes(65)));
    let headers: Vec<ClassHeader> = entries.into_iter().map(|(name, header)| ClassHeader { name, header }).collect();
    let info = detect_max_class_version(&headers).unwrap();
    assert_eq!(info.major_version, 52);
    assert_eq!(info.java_version, 8);
    assert_eq!(info.class_file, "p/C0.class");
}

#[test]
fn class_major_version_from_header() {
    assert_eq!(read_class_major_version(&make_class_bytes(61)), Some(61));
    assert_eq!(read_class_major_version(&[0xCA, 0xFE, 0xBA, 0xBE, 0, 0, 1, 2]), Some(258));
    assert_eq!(read_class_major_version(&[0xCA, 0xFE, 0xBA]), None);
}
