use rusty_halloween::version::{
    check_github_for_updates, is_update_available, GitHubAsset, GitHubRelease, Version,
    VersionError,
};

#[test]
fn test_version_parsing() {
    let v1 = Version::parse("0.1.0").unwrap();
    assert_eq!(v1.major, 0);
    assert_eq!(v1.minor, 1);
    assert_eq!(v1.patch, 0);

    let v2 = Version::parse("v1.2.3").unwrap();
    assert_eq!(v2.major, 1);
    assert_eq!(v2.minor, 2);
    assert_eq!(v2.patch, 3);
}

#[test]
fn test_version_comparison() {
    let v1 = Version::parse("0.1.0").unwrap();
    let v2 = Version::parse("0.2.0").unwrap();
    let v3 = Version::parse("1.0.0").unwrap();

    assert!(v2.is_newer_than(&v1));
    assert!(v3.is_newer_than(&v2));
    assert!(!v1.is_newer_than(&v2));
}

#[test]
fn release_prefixes_are_stripped() {
    assert_eq!(
        Version::parse("esp32-v2.10.7"),
        Ok(Version { major: 2, minor: 10, patch: 7 })
    );
    assert_eq!(
        Version::parse("esp32-vesp32-v0.0.9"),
        Ok(Version { major: 0, minor: 0, patch: 9 })
    );
    assert_eq!(
        Version::parse("+4.5.6"),
        Ok(Version { major: 4, minor: 5, patch: 6 })
    );
    assert_eq!(
        Version::parse("1.+5.6"),
        Ok(Version { major: 1, minor: 5, patch: 6 })
    );
}

#[test]
fn malformed_versions_are_refused() {
    assert_eq!(Version::parse("1.2"), Err(VersionError::InvalidFormat));
    assert_eq!(Version::parse("1.2.3.4"), Err(VersionError::InvalidFormat));
    assert_eq!(Version::parse(""), Err(VersionError::InvalidFormat));
    assert_eq!(Version::parse("x.2.3"), Err(VersionError::InvalidMajor));
    assert_eq!(Version::parse("1..3"), Err(VersionError::InvalidMinor));
    assert_eq!(Version::parse("1.2.4294967296"), Err(VersionError::InvalidPatch));
    assert_eq!(
        Version::parse("1.2.4294967295"),
        Ok(Version { major: 1, minor: 2, patch: 4294967295 })
    );
    assert_eq!(Version::parse("vv1.2.3"), Err(VersionError::InvalidMajor));
}

#[test]
fn newer_than_is_strict() {
    let a = Version { major: 1, minor: 2, patch: 3 };
    let b = Version { major: 1, minor: 2, patch: 4 };
    let c = Version { major: 1, minor: 3, patch: 0 };
    assert!(!a.is_newer_than(&a));
    assert!(b.is_newer_than(&a));
    assert!(!a.is_newer_than(&b));
    assert!(c.is_newer_than(&b) && c.is_newer_than(&a));
}

#[test]
fn version_text_round_trip() {
    let v = Version { major: 10, minor: 0, patch: 4294967295 };
    let text = v.to_version_string();
    assert_eq!(text, "10.0.4294967295");
    assert_eq!(Version::parse(&text), Ok(v));
    assert_eq!(Version { major: 0, minor: 0, patch: 1 }.to_version_string(), "0.0.1");
}

#[test]
fn current_version_and_update_check() {
    assert_eq!(Version::current(), Ok(Version { major: 0, minor: 0, patch: 1 }));
    assert_eq!(is_update_available(&Version { major: 0, minor: 0, patch: 2 }), Ok(true));
    assert_eq!(is_update_available(&Version { major: 0, minor: 0, patch: 1 }), Ok(false));
    assert!(matches!(check_github_for_updates(), Ok(None)));
}

fn asset(name: &str, url: &str, size: u64) -> GitHubAsset {
    GitHubAsset { name: name.to_string(), download_url: url.to_string(), size }
}

#[test]
fn firmware_asset_is_the_first_bin() {
    let release = GitHubRelease {
        version: "esp32-v0.3.0".to_string(),
        name: "release".to_string(),
        assets: vec![
            asset("notes.txt", "u0", 1),
            asset("fw-a.bin", "u1", 2),
            asset("fw-b.bin", "u2", 3),
        ],
    };
    let found = release.get_firmware_asset().unwrap();
    assert_eq!(found.download_url, "u1");
    assert_eq!(release.version(), Ok(Version { major: 0, minor: 3, patch: 0 }));
    let none = GitHubRelease {
        version: "1.0.0".to_string(),
        name: "r".to_string(),
        assets: vec![asset("bin", "u", 1)],
    };
    assert!(none.get_firmware_asset().is_none());
}
