use cargo_tag::cargo_toml::CargoToml;
use cargo_tag::version::Version;
use cargo_tag::ReleaseError;

const SAMPLE: &str = "# release me\n[package]\nname = \"demo\" # the crate\nversion = \"1.2.3\"\nedition = \"2021\"\n\n[dependencies]\nlibc = \"0.2\"\n";

#[test]
fn opens_manifest_and_reads_version() {
    let manifest = CargoToml::open("Cargo.toml", SAMPLE).unwrap();
    assert_eq!(manifest.package.version, Version::new(1, 2, 3));
    assert_eq!(manifest.meta.path, "Cargo.toml");
    assert_eq!(manifest.text, SAMPLE);
}

#[test]
fn open_rejects_missing_version() {
    let text = "[package]\nname = \"demo\"\n";
    assert_eq!(CargoToml::open("Cargo.toml", text).unwrap_err(), ReleaseError::ManifestParseError);
}

#[test]
fn open_rejects_broken_toml() {
    let text = "[package\nversion = \"1.2.3\"\n";
    assert_eq!(CargoToml::open("Cargo.toml", text).unwrap_err(), ReleaseError::ManifestParseError);
}

#[test]
fn open_rejects_non_canonical_version() {
    let with_prerelease = "[package]\nversion = \"1.2.3-rc1\"\n";
    assert_eq!(
        CargoToml::open("Cargo.toml", with_prerelease).unwrap_err(),
        ReleaseError::ManifestParseError
    );
    let with_leading_zero = "[package]\nversion = \"01.2.3\"\n";
    assert_eq!(
        CargoToml::open("Cargo.toml", with_leading_zero).unwrap_err(),
        ReleaseError::ManifestParseError
    );
    let not_a_string = "[package]\nversion = 3\n";
    assert_eq!(
        CargoToml::open("Cargo.toml", not_a_string).unwrap_err(),
        ReleaseError::ManifestParseError
    );
}

#[test]
fn unchanged_version_reproduces_the_file() {
    let manifest = CargoToml::open("Cargo.toml", SAMPLE).unwrap();
    let out = manifest.write_version(&Version::new(1, 2, 3));
    assert_eq!(out, SAMPLE);
}

#[test]
fn rewrite_touches_only_the_version_field() {
    let manifest = CargoToml::open("Cargo.toml", SAMPLE).unwrap();
    let out = manifest.write_version(&Version::new(2, 0, 0));
    let expected = "# release me\n[package]\nname = \"demo\" # the crate\nversion = \"2.0.0\"\nedition = \"2021\"\n\n[dependencies]\nlibc = \"0.2\"\n";
    assert_eq!(out, expected);
}

#[test]
fn reload_after_rewrite_yields_the_new_version() {
    let manifest = CargoToml::open("Cargo.toml", SAMPLE).unwrap();
    let out = manifest.write_version(&Version::new(1, 3, 0));
    let reloaded = CargoToml::open("Cargo.toml", out.as_str()).unwrap();
    assert_eq!(reloaded.package.version, Version::new(1, 3, 0));
}
