use cargo_tag::version::{parse_version, Version};

#[test]
fn bumps_major_version() {
    let current = Version::new(1, 1, 1);
    let mut version = current;

    version.bump_major();

    assert_eq!(version.major, 2);
    assert_eq!(version.minor, 0);
    assert_eq!(version.patch, 0);
}

#[test]
fn bumps_minor_version() {
    let current = Version::new(1, 1, 1);
    let mut version = current;

    version.bump_minor();

    assert_eq!(version.major, 1);
    assert_eq!(version.minor, 2);
    assert_eq!(version.patch, 0);
}

#[test]
fn bumps_patch_version() {
    let current = Version::new(1, 1, 1);
    let mut version = current;

    version.bump_patch();

    assert_eq!(version.major, 1);
    assert_eq!(version.minor, 1);
    assert_eq!(version.patch, 2);
}

#[test]
fn bump_is_deterministic() {
    let mut a = Version::new(3, 7, 9);
    let mut b = Version::new(3, 7, 9);
    a.bump_minor();
    b.bump_minor();
    assert_eq!(a, b);
    assert_eq!(a, Version::new(3, 8, 0));
}

#[test]
fn bump_near_maximum_component() {
    let mut version = Version::new(u64::MAX - 1, 5, 5);
    version.bump_major();
    assert_eq!(version, Version::new(u64::MAX, 0, 0));
}

#[test]
fn renders_canonical_text() {
    assert_eq!(Version::new(1, 2, 3).to_text(), "1.2.3");
    assert_eq!(Version::new(0, 0, 0).to_text(), "0.0.0");
    assert_eq!(Version::new(10, 0, 250).to_text(), "10.0.250");
    assert_eq!(Version::new(u64::MAX, 0, 1).to_text(), "18446744073709551615.0.1");
}

#[test]
fn parses_canonical_text() {
    assert_eq!(parse_version(&b"1.2.3".to_vec()), Some(Version::new(1, 2, 3)));
    assert_eq!(parse_version(&b"0.9.9".to_vec()), Some(Version::new(0, 9, 9)));
    assert_eq!(parse_version(&b"0.0.0".to_vec()), Some(Version::new(0, 0, 0)));
    assert_eq!(
        parse_version(&b"18446744073709551615.0.0".to_vec()),
        Some(Version::new(u64::MAX, 0, 0))
    );
}

#[test]
fn parse_rejects_malformed_text() {
    assert_eq!(parse_version(&b"".to_vec()), None);
    assert_eq!(parse_version(&b"1".to_vec()), None);
    assert_eq!(parse_version(&b"1.2".to_vec()), None);
    assert_eq!(parse_version(&b"1.2.".to_vec()), None);
    assert_eq!(parse_version(&b"1.2.3.4".to_vec()), None);
    assert_eq!(parse_version(&b"1..3".to_vec()), None);
    assert_eq!(parse_version(&b"a.b.c".to_vec()), None);
    assert_eq!(parse_version(&b"1.2.3-rc1".to_vec()), None);
    assert_eq!(parse_version(&b" 1.2.3".to_vec()), None);
}

#[test]
fn parse_rejects_leading_zeros() {
    assert_eq!(parse_version(&b"01.2.3".to_vec()), None);
    assert_eq!(parse_version(&b"1.02.3".to_vec()), None);
    assert_eq!(parse_version(&b"1.2.00".to_vec()), None);
}

#[test]
fn parse_rejects_out_of_range_components() {
    assert_eq!(parse_version(&b"18446744073709551616.0.0".to_vec()), None);
    assert_eq!(parse_version(&b"0.0.99999999999999999999".to_vec()), None);
}

#[test]
fn parse_inverts_rendering() {
    let samples = vec![
        Version::new(0, 0, 1),
        Version::new(1, 0, 0),
        Version::new(12, 34, 56),
        Version::new(u64::MAX, u64::MAX, u64::MAX),
    ];
    for v in samples {
        assert_eq!(parse_version(&v.text_bytes()), Some(v));
    }
}
