use cargo_tag::cli::{Cli, Command, ExecPlan};
use cargo_tag::version::Version;
use cargo_tag::ReleaseError;

const SAMPLE: &str = "[package]\nname = \"demo\"\nversion = \"1.2.3\"\n";

#[test]
fn current_prints_the_version() {
    let plan = Cli::Tag(Command::Current).exec("Cargo.toml", SAMPLE).unwrap();
    match plan {
        ExecPlan::Print { version_text } => assert_eq!(version_text, "1.2.3"),
        _ => panic!("current must only print"),
    }
}

#[test]
fn major_bump_plans_the_release() {
    let plan = Cli::Tag(Command::Major).exec("Cargo.toml", SAMPLE).unwrap();
    match plan {
        ExecPlan::Release { new_manifest, version, version_text, message } => {
            assert_eq!(version, Version::new(2, 0, 0));
            assert_eq!(version_text, "2.0.0");
            assert_eq!(message, "chore: bump version to 2.0.0");
            assert_eq!(new_manifest, "[package]\nname = \"demo\"\nversion = \"2.0.0\"\n");
        }
        _ => panic!("a bump must plan a release"),
    }
}

#[test]
fn patch_bump_carries_no_rollover() {
    let text = "[package]\nname = \"demo\"\nversion = \"0.9.9\"\n";
    let plan = Cli::Tag(Command::Patch).exec("Cargo.toml", text).unwrap();
    match plan {
        ExecPlan::Release { version, version_text, .. } => {
            assert_eq!(version, Version::new(0, 9, 10));
            assert_eq!(version_text, "0.9.10");
        }
        _ => panic!("a bump must plan a release"),
    }
}

#[test]
fn minor_bump_resets_patch() {
    let text = "[package]\nname = \"demo\"\nversion = \"0.9.9\"\n";
    let plan = Cli::Tag(Command::Minor).exec("Cargo.toml", text).unwrap();
    match plan {
        ExecPlan::Release { version, .. } => assert_eq!(version, Version::new(0, 10, 0)),
        _ => panic!("a bump must plan a release"),
    }
}

#[test]
fn malformed_manifest_is_a_parse_error() {
    let err = Cli::Tag(Command::Major).exec("Cargo.toml", "not toml [").unwrap_err();
    assert_eq!(err, ReleaseError::ManifestParseError);
}

#[test]
fn bump_at_the_integer_maximum_is_refused() {
    let text = "[package]\nversion = \"18446744073709551615.0.0\"\n";
    let err = Cli::Tag(Command::Major).exec("Cargo.toml", text).unwrap_err();
    assert_eq!(err, ReleaseError::VersionOverflow);
    let still_fine = Cli::Tag(Command::Minor).exec("Cargo.toml", text).unwrap();
    match still_fine {
        ExecPlan::Release { version, .. } => {
            assert_eq!(version, Version::new(u64::MAX, 1, 0));
        }
        _ => panic!("a bump must plan a release"),
    }
}
