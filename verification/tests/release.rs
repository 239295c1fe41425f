use jabberwok::xtask::package::{
    ensure_host_matches, package, package_macos, platform_name, should_skip_packaged_file,
    MacosPackageStage, PackageStep, Platform,
};
use jabberwok::xtask::service::{install_service, uninstall_service};
use jabberwok::xtask::{linux, windows};
use jabberwok::xtask::release::{
    check_version_changes, package_version, release_summary_lines, replace_package_version,
    validate_version, ReleaseError,
};

#[test]
fn validates_semver_like_version() {
    assert!(validate_version("0.1.1").is_ok());
    assert!(validate_version("0.1.1-rc.1").is_ok());
    assert!(validate_version("0.1.1-beta.2").is_ok());
    assert!(validate_version("1.2.3-alpha-1").is_ok());
    assert!(validate_version("1.0").is_err());
    assert!(validate_version("v1.0.0").is_err());
    assert!(validate_version("1.0.0-").is_err());
    assert!(validate_version("1.0.0-rc..1").is_err());
    assert!(validate_version("1.0.0+build.1").is_err());
}

#[test]
fn reads_root_package_version() {
    let manifest = r#"[package]
name = "jabberwok"
version = "0.1.0"

[workspace]
members = ["xtask"]
"#;
    assert_eq!(package_version(manifest).unwrap(), "0.1.0");
}

#[test]
fn only_rewrites_package_section_version() {
    let manifest = r#"[package]
name = "jabberwok"
version = "0.1.0"

[workspace]
members = ["xtask"]

[patch.crates-io]
example = { version = "1.2.3" }
"#;
    let updated = replace_package_version(manifest, "0.1.1").unwrap();
    assert!(updated.contains("version = \"0.1.1\""));
    assert!(updated.contains("example = { version = \"1.2.3\" }"));
    assert!(!updated.contains("version = \"0.1.0\""));
}

#[test]
fn version_reads_back_after_rewrite() {
    let manifest = "[workspace]\r\nmembers = [\"x\"]\r\n\r\n[package]\r\n  version = \"0.1.0\"\r\nname = \"j\"";
    let updated = replace_package_version(manifest, "2.0.0-rc.1").unwrap();
    assert_eq!(package_version(&updated).unwrap(), "2.0.0-rc.1");
    assert!(updated.contains("  version = \"2.0.0-rc.1\""));
    assert!(!updated.ends_with('\n'));
    let with_newline = replace_package_version("[package]\nversion = \"1\"\n", "3.4.5").unwrap();
    assert_eq!(with_newline, "[package]\nversion = \"3.4.5\"\n");
    assert_eq!(package_version(&with_newline).unwrap(), "3.4.5");
    assert_eq!(
        replace_package_version("[workspace]\nversion = \"1\"\n", "3.4.5").unwrap_err(),
        ReleaseError::VersionNotReplaced
    );
}

#[test]
fn rewrite_keeps_other_lines() {
    let manifest = "[package]\nname = \"j\"\n  version = \"0.1.0\"\n\n[dependencies]\nx = { version = \"1\" }\n";
    let updated = replace_package_version(manifest, "0.2.0").unwrap();
    let before: Vec<&str> = manifest.lines().collect();
    let after: Vec<&str> = updated.lines().collect();
    assert_eq!(before.len(), after.len());
    for (i, (b, a)) in before.iter().zip(after.iter()).enumerate() {
        if i == 2 {
            assert_eq!(*a, "  version = \"0.2.0\"");
        } else {
            assert_eq!(a, b);
        }
    }
    assert!(updated.ends_with('\n'));
}

#[test]
fn release_refusals() {
    assert_eq!(validate_version("1.0").unwrap_err(), ReleaseError::InvalidVersion);
    assert_eq!(
        ReleaseError::InvalidVersion.message(),
        "version must look like 0.1.1 or 0.1.1-rc.1"
    );
    assert_eq!(package_version("[workspace]\n").unwrap_err(), ReleaseError::MissingPackageVersion);
    assert_eq!(
        check_version_changes("0.1.0", "0.1.0").unwrap_err(),
        "Cargo.toml is already at version 0.1.0"
    );
    assert!(check_version_changes("0.1.0", "0.1.1").is_ok());
    assert_eq!(
        release_summary_lines("0.2.0", "main", false),
        vec!["prepared release v0.2.0", "next: git push origin main && git push origin v0.2.0"]
    );
    assert_eq!(
        release_summary_lines("0.2.0", "main", true)[1],
        "pushed main and v0.2.0 to origin"
    );
}

#[test]
fn packaging_checks() {
    assert_eq!(platform_name(Platform::Linux), "linux");
    assert!(ensure_host_matches(Platform::Macos, "macos").is_ok());
    assert_eq!(
        ensure_host_matches(Platform::Windows, "linux").unwrap_err(),
        "packaging for windows must be run on a windows host; current host is linux"
    );
    assert_eq!(linux::package().unwrap_err(), "Linux packaging is not implemented yet");
    assert_eq!(windows::uninstall_service().unwrap_err(), "Windows service removal is not implemented yet");
    assert_eq!(install_service(Platform::Linux).unwrap_err(), "Linux service installation is not implemented yet");
    assert!(uninstall_service(Platform::Macos).is_ok());
    assert_eq!(
        package(Platform::Macos, "macos").unwrap(),
        vec![PackageStep::BuildReleaseBinary, PackageStep::StageAppBundle, PackageStep::PackageDmg]
    );
    assert_eq!(
        package(Platform::Windows, "windows").unwrap(),
        vec![
            PackageStep::BuildReleaseBinary,
            PackageStep::Fail("Windows packaging is not implemented yet".to_string()),
        ]
    );
    assert!(package(Platform::Linux, "macos").is_err());
    assert_eq!(package_macos(MacosPackageStage::PackageDmg, "macos").unwrap(), vec![PackageStep::PackageDmg]);
    assert!(package_macos(MacosPackageStage::All, "linux").is_err());
    assert!(should_skip_packaged_file("._Info.plist"));
}
