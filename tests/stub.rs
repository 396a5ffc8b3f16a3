use jbundle::config::JvmProfile;
use jbundle::pack::PackLayout;
use jbundle::stub::{finalize_stub, generate, StubParams};

fn params_default<'a>() -> StubParams<'a> {
    StubParams {
        runtime_hash: "rt1",
        runtime_size: 100,
        app_hash: "app1",
        app_size: 200,
        crac_hash: None,
        crac_size: 0,
        profile: &JvmProfile::Server,
        jvm_args: &[],
        appcds: true,
        java_version: 21,
        compact_banner: false,
    }
}

fn declared_size(stub: &str) -> usize {
    let line = stub.lines().find(|l| l.starts_with("STUB_SIZE=")).unwrap();
    line["STUB_SIZE=".len()..].parse().unwrap()
}

#[test]
fn stub_starts_with_shebang() {
    let p = StubParams { runtime_hash: "abc123", runtime_size: 1024, app_hash: "def456", app_size: 2048, ..params_default() };
    let stub = generate(&p);
    assert!(stub.starts_with("#!/bin/sh\n"));
}

#[test]
fn stub_contains_runtime_hash_and_size() {
    let p = StubParams { runtime_hash: "deadbeef12345678", runtime_size: 9999, app_hash: "app1234", app_size: 555, ..params_default() };
    let stub = generate(&p);
    assert!(stub.contains("RT_HASH=\"deadbeef12345678\""));
    assert!(stub.contains("RT_SIZE=9999"));
}

#[test]
fn stub_contains_app_hash_and_size() {
    let p = StubParams { app_hash: "apphash99", app_size: 4444, ..params_default() };
    let stub = generate(&p);
    assert!(stub.contains("APP_HASH=\"apphash99\""));
    assert!(stub.contains("APP_SIZE=4444"));
}

#[test]
fn stub_with_appcds_jdk21() {
    let p = StubParams { appcds: true, java_version: 21, ..params_default() };
    let stub = generate(&p);
    assert!(stub.contains("AutoCreateSharedArchive"));
    assert!(stub.contains("SharedArchiveFile"));
}

#[test]
fn stub_without_appcds() {
    let p = StubParams { appcds: false, ..params_default() };
    let stub = generate(&p);
    assert!(!stub.contains("AutoCreateSharedArchive"));
}

#[test]
fn stub_appcds_disabled_for_old_jdk() {
    let p = StubParams { appcds: true, java_version: 17, ..params_default() };
    let stub = generate(&p);
    assert!(!stub.contains("AutoCreateSharedArchive"));
}

#[test]
fn stub_appcds_from_jdk19() {
    let p = StubParams { appcds: true, java_version: 19, ..params_default() };
    assert!(generate(&p).contains("AutoCreateSharedArchive"));
    let p = StubParams { appcds: true, java_version: 18, ..params_default() };
    assert!(!generate(&p).contains("AutoCreateSharedArchive"));
}

#[test]
fn stub_with_crac() {
    let p = StubParams { crac_hash: Some("crac1"), crac_size: 500, ..params_default() };
    let stub = generate(&p);
    assert!(stub.contains("CRAC_SIZE=500"));
    assert!(stub.contains("CRAC_HASH=\"crac1\""));
}

#[test]
fn stub_cli_profile_flags() {
    let profile = JvmProfile::Cli;
    let p = StubParams { profile: &profile, ..params_default() };
    let stub = generate(&p);
    assert!(stub.contains("-XX:+TieredCompilation"));
    assert!(stub.contains("-XX:TieredStopAtLevel=1"));
    assert!(stub.contains("-XX:+UseSerialGC"));
}

#[test]
fn stub_server_profile_no_extra_flags() {
    let stub = generate(&params_default());
    assert!(!stub.contains("-XX:+TieredCompilation"));
    assert!(!stub.contains("TieredStopAtLevel"));
    assert!(!stub.contains("UseSerialGC"));
}

#[test]
fn stub_with_jvm_args() {
    let args = vec!["-Xmx512m".to_string(), "-Dapp.env=prod".to_string()];
    let p = StubParams { jvm_args: &args, ..params_default() };
    let stub = generate(&p);
    assert!(stub.contains("-Xmx512m -Dapp.env=prod"));
}

#[test]
fn stub_cli_profile_with_jvm_args() {
    let profile = JvmProfile::Cli;
    let args = vec!["-Xmx256m".to_string()];
    let p = StubParams { profile: &profile, jvm_args: &args, ..params_default() };
    let stub = generate(&p);
    assert!(stub.contains("-XX:+TieredCompilation -XX:TieredStopAtLevel=1 -XX:+UseSerialGC -Xmx256m"));
}

#[test]
fn stub_launch_line_exact() {
    let stub = generate(&params_default());
    assert!(stub.contains("exec \"$RT_DIR/bin/java\" $CDS_FLAG -jar \"$APP_DIR/app.jar\" \"$@\"\n"));
}

#[test]
fn stub_ends_with_payload_marker() {
    let stub = generate(&params_default());
    assert!(stub.ends_with("# --- PAYLOAD BELOW ---\n"));
}

#[test]
fn stub_contains_banner() {
    let stub = generate(&params_default());
    assert!(stub.contains("BANNER"));
    assert!(stub.contains("(_) |__"));
}

#[test]
fn stub_compact_banner() {
    let p = StubParams { compact_banner: true, ..params_default() };
    let stub = generate(&p);
    assert!(stub.contains("BANNER"));
    assert!(!stub.contains("(_) |__"));
}

#[test]
fn stub_contains_layered_cache_dirs() {
    let stub = generate(&params_default());
    assert!(stub.contains("rt-$RT_HASH"));
    assert!(stub.contains("app-$APP_HASH"));
}

#[test]
fn stub_decompresses_app_jar() {
    let stub = generate(&params_default());
    assert!(stub.contains("gzip -d"));
}

#[test]
fn finalize_stub_replaces_placeholder() {
    let stub = generate(&params_default());
    let finalized = finalize_stub(&stub);
    assert!(!finalized.contains("__STUB_SIZE__"));
    assert!(finalized.contains("STUB_SIZE="));
}

#[test]
fn finalized_stub_declares_its_own_length() {
    let stub = generate(&params_default());
    let finalized = finalize_stub(&stub);
    assert_eq!(declared_size(&finalized), finalized.len());
    let base = stub.len() - "__STUB_SIZE__".len();
    assert_eq!(finalized.len(), base + finalized.len().to_string().len());
}

#[test]
fn finalize_stub_digit_boundary() {
    // base length 8: both 9 and 10 are self-consistent; the smaller is used.
    let s = "ab__STUB_SIZE__cdefgh";
    let f = finalize_stub(s);
    assert_eq!(f, "ab9cdefgh");
    assert_eq!(f.len(), 9);
    // base length 9: 10 is the only fixed point.
    let f = finalize_stub("ab__STUB_SIZE__cdefghi");
    assert_eq!(f, "ab11cdefghi");
    assert_eq!(f.len(), 11);
}

#[test]
fn finalize_stub_counts_bytes() {
    let f = finalize_stub("é__STUB_SIZE__");
    assert_eq!(f.len(), "é".len() + f.len().to_string().len());
    assert_eq!(f, format!("é{}", f.len()));
}

#[test]
fn finalize_stub_without_placeholder_is_unchanged() {
    assert_eq!(finalize_stub("#!/bin/sh\n"), "#!/bin/sh\n");
}

#[test]
fn packer_layout_scenario() {
    // A 50 MB runtime archive and a 5 MB application, without a checkpoint.
    let stub = finalize_stub(&generate(&params_default()));
    let stub_len = stub.len() as u64;
    let rt: u64 = 50_000_000;
    let app: u64 = 5_000_000;
    let layout = PackLayout::new(stub_len, rt, app, 0).unwrap();
    assert_eq!(layout.runtime_offset(), stub_len);
    assert_eq!(layout.app_offset(), stub_len + rt);
    assert_eq!(layout.crac_offset(), stub_len + rt + app);
    assert_eq!(layout.total(), stub_len + rt + app);
    assert_eq!(declared_size(&stub) as u64, layout.runtime_offset());
}

#[test]
fn packer_layout_rejects_overflow() {
    assert!(PackLayout::new(u64::MAX, 1, 0, 0).is_none());
}

#[test]
fn output_directory_message() {
    match jbundle::pack::output_is_directory_error("./dist") {
        jbundle::error::PackError::BuildFailed(m) => assert_eq!(
            m,
            "output path './dist' is a directory. Specify a file path like './dist/app' instead of './dist'"
        ),
        other => panic!("unexpected {other:?}"),
    }
}
