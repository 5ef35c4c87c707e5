use vault64::launcher::{Vault64App, APP_VERSION};

#[test]
fn versions_are_three_numbers() {
    for (text, numbers) in [
        ("v3.0", (3, 0, 0)),
        ("3.1.4", (3, 1, 4)),
        ("  v1.2.3 \n", (1, 2, 3)),
        ("vvv2", (2, 0, 0)),
        ("v1.2-beta.3-rc1", (1, 2, 3)),
        ("1.2.3.4", (1, 2, 3)),
        ("", (0, 0, 0)),
        ("beta", (0, 0, 0)),
        ("1..2", (1, 0, 2)),
        ("v+1.0", (1, 0, 0)),
        ("V1.0", (0, 0, 0)),
        ("4294967296.1", (0, 1, 0)),
        ("4294967295", (4294967295, 0, 0)),
        ("v 1.0", (0, 0, 0)),
    ] {
        assert_eq!(Vault64App::version_tuple(text), numbers, "{:?}", text);
    }
}

#[test]
fn higher_versions_are_newer() {
    assert!(Vault64App::is_newer_version("v3.1", APP_VERSION));
    assert!(Vault64App::is_newer_version("v3.0.1", APP_VERSION));
    assert!(Vault64App::is_newer_version("10.0", "v9.9.9"));
    assert!(!Vault64App::is_newer_version("v3.0", APP_VERSION));
    assert!(!Vault64App::is_newer_version("3.0.0", APP_VERSION));
    assert!(!Vault64App::is_newer_version("v2.9.9", APP_VERSION));
    assert!(!Vault64App::is_newer_version("nightly", APP_VERSION));
    assert!(Vault64App::is_newer_version("v0.0.1", "nightly"));
}

#[test]
fn unnumbered_versions_differ_by_text() {
    assert!(Vault64App::is_newer_version("nightly-2", "nightly-1"));
    assert!(!Vault64App::is_newer_version("nightly", "nightly"));
    assert!(!Vault64App::is_newer_version("vnightly", "nightly"));
    assert!(Vault64App::is_newer_version(" nightly", "nightly"));
    assert!(Vault64App::is_newer_version("0.0.0", "beta"));
}

#[test]
fn newer_is_an_order_of_numbered_versions() {
    let versions = ["0.0.1", "v0.1", "1.0", "v1.0.1", "1.1", "v2", "2.0.1-rc"];
    for a in 0..versions.len() {
        for b in 0..versions.len() {
            assert_eq!(Vault64App::is_newer_version(versions[a], versions[b]), a > b);
        }
    }
}

#[test]
fn a_leading_v_is_ignored() {
    for v in ["1.2.3", "v7", "beta", "0.1 ", "", "  "] {
        let with_v = format!("v{}", v);
        assert_eq!(Vault64App::version_tuple(&with_v), Vault64App::version_tuple(v));
    }
}

#[test]
fn written_versions_are_read_back() {
    for (a, b, c) in [(0u32, 0u32, 0u32), (1, 22, 333), (u32::MAX, 0, 9)] {
        assert_eq!(Vault64App::version_tuple(&format!("{}.{}.{}", a, b, c)), (a, b, c));
        assert_eq!(Vault64App::version_tuple(&format!("v{}.{}.{}", a, b, c)), (a, b, c));
    }
}

#[test]
fn suffixes_are_ignored() {
    for suffix in ["-rc1", "-", "-beta.2.9", ".4", ".", ".4-x.5", "- \n"] {
        assert_eq!(Vault64App::version_tuple(&format!("1.2.3{}", suffix)), (1, 2, 3), "{}", suffix);
        assert_eq!(Vault64App::version_tuple(&format!("v1.2.3{}", suffix)), (1, 2, 3), "{}", suffix);
    }
    assert_eq!(Vault64App::version_tuple("1-a.2-b.3-c"), (1, 2, 3));
    assert_eq!(Vault64App::version_tuple("-beta"), Vault64App::version_tuple(""));
    assert_eq!(Vault64App::version_tuple("  -beta"), Vault64App::version_tuple("  "));
    assert!(!Vault64App::is_newer_version("v3.0.0-rc1", APP_VERSION));
}

#[test]
fn outer_space_is_ignored() {
    for v in ["1.2.3", " v1.2.3\t", "\u{3000}4.5\n", "  ", "beta "] {
        assert_eq!(Vault64App::version_tuple(v.trim()), Vault64App::version_tuple(v));
    }
}

#[test]
fn newer_is_transitive_with_one_number() {
    assert!(Vault64App::is_newer_version("1.0", "beta"));
    assert!(Vault64App::is_newer_version("beta", "alpha"));
    assert!(Vault64App::is_newer_version("1.0", "alpha"));
}
