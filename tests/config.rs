use jbundle::config::{detect_gc_conflict, BuildConfig, JvmProfile, Target, TargetArch, TargetOs};

#[test]
fn target_from_str_valid() {
    let t = Target::from_str("linux-x64").unwrap();
    assert_eq!(t.os, TargetOs::Linux);
    assert_eq!(t.arch, TargetArch::X86_64);

    let t = Target::from_str("linux-aarch64").unwrap();
    assert_eq!(t.os, TargetOs::Linux);
    assert_eq!(t.arch, TargetArch::Aarch64);

    let t = Target::from_str("macos-x64").unwrap();
    assert_eq!(t.os, TargetOs::MacOs);
    assert_eq!(t.arch, TargetArch::X86_64);

    let t = Target::from_str("macos-aarch64").unwrap();
    assert_eq!(t.os, TargetOs::MacOs);
    assert_eq!(t.arch, TargetArch::Aarch64);
}

#[test]
fn target_from_str_invalid() {
    assert!(Target::from_str("windows-x64").is_none());
    assert!(Target::from_str("").is_none());
    assert!(Target::from_str("linux").is_none());
}

#[test]
fn adoptium_os_mapping() {
    let linux = Target { os: TargetOs::Linux, arch: TargetArch::X86_64 };
    assert_eq!(linux.adoptium_os(), "linux");

    let macos = Target { os: TargetOs::MacOs, arch: TargetArch::X86_64 };
    assert_eq!(macos.adoptium_os(), "mac");
}

#[test]
fn adoptium_arch_mapping() {
    let x64 = Target { os: TargetOs::Linux, arch: TargetArch::X86_64 };
    assert_eq!(x64.adoptium_arch(), "x64");

    let arm = Target { os: TargetOs::Linux, arch: TargetArch::Aarch64 };
    assert_eq!(arm.adoptium_arch(), "aarch64");
}

#[test]
fn target_key_and_host() {
    let t = Target::current("macos", "aarch64");
    assert_eq!(t, Target { os: TargetOs::MacOs, arch: TargetArch::Aarch64 });
    assert_eq!(t.key(), "mac-aarch64");
    let t = Target::current("linux", "x86_64");
    assert_eq!(t, Target { os: TargetOs::Linux, arch: TargetArch::X86_64 });
    assert_eq!(t.key(), "linux-x64");
}

#[test]
fn cache_dir_ends_with_expected_path() {
    let cache = BuildConfig::cache_dir().unwrap();
    assert!(cache.ends_with(".jbundle/cache"));
}

#[test]
fn cache_dir_joins_home() {
    assert_eq!(jbundle::config::cache_dir_in(Some("/home/u".to_string())).unwrap(), "/home/u/.jbundle/cache");
    assert_eq!(jbundle::config::cache_dir_in(Some("/home/u/".to_string())).unwrap(), "/home/u/.jbundle/cache");
    assert!(jbundle::config::cache_dir_in(None).is_err());
}

#[test]
fn jvm_profile_cli_flags() {
    let flags = JvmProfile::Cli.flags();
    assert!(flags.contains(&"-XX:+TieredCompilation"));
    assert!(flags.contains(&"-XX:TieredStopAtLevel=1"));
    assert!(flags.contains(&"-XX:+UseSerialGC"));
}

#[test]
fn jvm_profile_server_flags_empty() {
    let flags = JvmProfile::Server.flags();
    assert!(flags.is_empty());
}

#[test]
fn jvm_profile_from_str_valid() {
    assert_eq!(JvmProfile::from_str("cli").unwrap(), JvmProfile::Cli);
    assert_eq!(JvmProfile::from_str("server").unwrap(), JvmProfile::Server);
}

#[test]
fn jvm_profile_from_str_invalid() {
    assert!(JvmProfile::from_str("unknown").is_err());
    assert!(matches!(JvmProfile::from_str("fast"), Err(jbundle::error::PackError::InvalidProfile(s)) if s == "fast"));
}

#[test]
fn jvm_profile_names() {
    assert_eq!(JvmProfile::Cli.name(), "cli");
    assert_eq!(JvmProfile::Server.name(), "server");
}

#[test]
fn detect_gc_conflict_cli_with_zgc() {
    let conflict = detect_gc_conflict(&JvmProfile::Cli, &["-Xmx512m".to_string(), "-XX:+UseZGC".to_string()]);
    assert!(conflict.is_some());
    let c = conflict.unwrap();
    assert_eq!(c.profile_gc, "-XX:+UseSerialGC");
    assert_eq!(c.jvm_args_gc, "-XX:+UseZGC");
}

#[test]
fn detect_gc_conflict_cli_with_g1gc() {
    let conflict = detect_gc_conflict(&JvmProfile::Cli, &["-XX:+UseG1GC".to_string()]);
    assert!(conflict.is_some());
}

#[test]
fn detect_gc_conflict_server_no_conflict() {
    let conflict = detect_gc_conflict(&JvmProfile::Server, &["-XX:+UseZGC".to_string()]);
    assert!(conflict.is_none());
}

#[test]
fn detect_gc_conflict_cli_no_gc_in_args() {
    let conflict = detect_gc_conflict(&JvmProfile::Cli, &["-Xmx512m".to_string(), "-Dapp.env=prod".to_string()]);
    assert!(conflict.is_none());
}

#[test]
fn detect_gc_conflict_cli_same_gc() {
    let conflict = detect_gc_conflict(&JvmProfile::Cli, &["-XX:+UseSerialGC".to_string()]);
    assert!(conflict.is_none());
}

#[test]
fn jvm_profile_gc_flag() {
    assert_eq!(JvmProfile::Cli.gc_flag(), Some("-XX:+UseSerialGC"));
    assert_eq!(JvmProfile::Server.gc_flag(), None);
}
