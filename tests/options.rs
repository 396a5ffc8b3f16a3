use jbundle::config::{JvmProfile, Target, TargetArch, TargetOs};
use jbundle::error::PackError;
use jbundle::options::{parse_module_list, resolve_build_config, BuildOptions, ProjectConfig};

fn cli() -> BuildOptions {
    BuildOptions {
        input: "/p".to_string(),
        output: "./dist/app".to_string(),
        java_version: None,
        target: None,
        jvm_args: vec![],
        shrink: false,
        profile: None,
        no_appcds: false,
        crac: false,
        gradle_project: None,
        all: false,
        modules: None,
        jlink_runtime: None,
        compact_banner: false,
    }
}

const HOST: Target = Target { os: TargetOs::Linux, arch: TargetArch::X86_64 };

#[test]
fn defaults_without_file() {
    let c = resolve_build_config(&cli(), &None, HOST).unwrap();
    assert_eq!(c.java_version, 21);
    assert!(!c.java_version_explicit);
    assert_eq!(c.target, HOST);
    assert_eq!(c.profile, JvmProfile::Server);
    assert!(c.appcds && !c.shrink && !c.crac && !c.compact_banner);
    assert!(c.modules_override.is_none());
}

#[test]
fn command_line_wins_over_file() {
    let file = ProjectConfig {
        java_version: Some(17),
        target: Some("macos-aarch64".to_string()),
        jvm_args: Some(vec!["-Xmx1g".to_string()]),
        profile: Some("cli".to_string()),
        appcds: Some(false),
        modules: Some(vec!["java.base".to_string()]),
        ..ProjectConfig::default()
    };
    let c = resolve_build_config(&cli(), &Some(file), HOST).unwrap();
    assert_eq!(c.java_version, 17);
    assert!(c.java_version_explicit);
    assert_eq!(c.target, Target { os: TargetOs::MacOs, arch: TargetArch::Aarch64 });
    assert_eq!(c.jvm_args, vec!["-Xmx1g"]);
    assert_eq!(c.profile, JvmProfile::Cli);
    assert!(!c.appcds);
    assert_eq!(c.modules_override, Some(vec!["java.base".to_string()]));

    let file = ProjectConfig { java_version: Some(17), profile: Some("cli".to_string()), ..ProjectConfig::default() };
    let opts = BuildOptions {
        java_version: Some(21),
        profile: Some("server".to_string()),
        target: Some("linux-aarch64".to_string()),
        jvm_args: vec!["-Xmx2g".to_string()],
        modules: Some("java.base, java.sql".to_string()),
        ..cli()
    };
    let c = resolve_build_config(&opts, &Some(file), HOST).unwrap();
    assert_eq!(c.java_version, 21);
    assert_eq!(c.profile, JvmProfile::Server);
    assert_eq!(c.target.arch, TargetArch::Aarch64);
    assert_eq!(c.jvm_args, vec!["-Xmx2g"]);
    assert_eq!(c.modules_override, Some(vec!["java.base".to_string(), "java.sql".to_string()]));
}

#[test]
fn invalid_target_and_profile_are_rejected() {
    let opts = BuildOptions { target: Some("windows-x64".to_string()), profile: Some("fast".to_string()), ..cli() };
    assert!(matches!(resolve_build_config(&opts, &None, HOST), Err(PackError::InvalidTarget(t)) if t == "windows-x64"));
    let opts = BuildOptions { profile: Some("fast".to_string()), ..cli() };
    assert!(matches!(resolve_build_config(&opts, &None, HOST), Err(PackError::InvalidProfile(p)) if p == "fast"));
}

#[test]
fn flags_combine_with_file() {
    let file = ProjectConfig { shrink: Some(true), crac: Some(true), compact_banner: Some(true), ..ProjectConfig::default() };
    let c = resolve_build_config(&BuildOptions { no_appcds: true, ..cli() }, &Some(file), HOST).unwrap();
    assert!(c.shrink && c.crac && c.compact_banner && !c.appcds);
}

#[test]
fn module_list_is_trimmed() {
    assert_eq!(parse_module_list(" a , b,c "), vec!["a", "b", "c"]);
}
