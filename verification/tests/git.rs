use cargo_tag::git::{
    head_to_parent, resolve_identity, tag_to_result, Git, HeadOutcome, StagingMode, TagOutcome,
};
use cargo_tag::version::Version;
use cargo_tag::ReleaseError;

fn first_commit(repo: &git2::Repository) -> git2::Oid {
    let sig = git2::Signature::now("Seed", "seed@example.com").unwrap();
    let tree_id = {
        let mut index = repo.index().unwrap();
        index.write_tree().unwrap()
    };
    let tree = repo.find_tree(tree_id).unwrap();
    repo.commit(Some("HEAD"), &sig, &sig, "init", &tree, &[]).unwrap()
}

fn branch_of(repo: &git2::Repository) -> String {
    repo.head().unwrap().shorthand().unwrap().to_string()
}

#[test]
fn release_commits_on_head_and_tags_the_new_commit() {
    let dir = tempfile::tempdir().unwrap();
    let repo = git2::Repository::init(dir.path()).unwrap();
    let base = first_commit(&repo);
    let branch = branch_of(&repo);
    let git =
        Git::open(dir.path().to_str().unwrap(), &branch, "tagger@example.com", "Tagger").unwrap();

    git.release(&Version::new(2, 0, 0), "chore: bump version to 2.0.0").unwrap();

    let head = repo.head().unwrap().peel_to_commit().unwrap();
    assert_eq!(head.parent_count(), 1);
    assert_eq!(head.parent_id(0).unwrap(), base);
    assert_eq!(head.message().unwrap(), "chore: bump version to 2.0.0");
    assert_eq!(head.author().name().unwrap(), "Tagger");
    assert_eq!(head.author().email().unwrap(), "tagger@example.com");
    let tag = repo.find_reference("refs/tags/2.0.0").unwrap().peel_to_tag().unwrap();
    assert_eq!(tag.target_id(), head.id());
    assert_eq!(tag.message().unwrap(), Some("chore: bump version to 2.0.0"));
    assert_eq!(tag.tagger().unwrap().name().unwrap(), "Tagger");
}

#[test]
fn second_release_of_the_same_version_fails_with_tag_exists() {
    let dir = tempfile::tempdir().unwrap();
    let repo = git2::Repository::init(dir.path()).unwrap();
    first_commit(&repo);
    let branch = branch_of(&repo);
    let git = Git::open(dir.path().to_str().unwrap(), &branch, "t@example.com", "T").unwrap();

    git.release(&Version::new(1, 0, 1), "chore: bump version to 1.0.1").unwrap();
    let first_target = repo.find_reference("refs/tags/1.0.1").unwrap().peel_to_tag().unwrap();

    let err = git.release(&Version::new(1, 0, 1), "chore: bump version to 1.0.1").unwrap_err();
    assert_eq!(err, ReleaseError::TagExists);
    let after = repo.find_reference("refs/tags/1.0.1").unwrap().peel_to_tag().unwrap();
    assert_eq!(after.target_id(), first_target.target_id());
}

#[test]
fn empty_repository_fails_with_no_head_and_writes_nothing() {
    let dir = tempfile::tempdir().unwrap();
    let repo = git2::Repository::init(dir.path()).unwrap();
    let git = Git::open(dir.path().to_str().unwrap(), "master", "t@example.com", "T").unwrap();

    let err = git.release(&Version::new(1, 0, 0), "chore: bump version to 1.0.0").unwrap_err();

    assert_eq!(err, ReleaseError::NoHead);
    assert!(repo.head().is_err());
    assert_eq!(repo.tag_names(None).unwrap().len(), 0);
}

#[test]
fn staging_mode_limits_what_a_release_commit_captures() {
    let dir = tempfile::tempdir().unwrap();
    let repo = git2::Repository::init(dir.path()).unwrap();
    first_commit(&repo);
    let branch = branch_of(&repo);
    let pending = tempfile::Builder::new().tempfile_in(dir.path()).unwrap();
    let mut git =
        Git::open(dir.path().to_str().unwrap(), &branch, "t@example.com", "T").unwrap();
    assert_eq!(git.staging, StagingMode::Everything);

    git.staging = StagingMode::ManifestOnly;
    git.release(&Version::new(0, 1, 0), "chore: bump version to 0.1.0").unwrap();
    let narrow = repo.head().unwrap().peel_to_commit().unwrap();
    assert_eq!(narrow.tree().unwrap().len(), 0);

    git.staging = StagingMode::Everything;
    git.release(&Version::new(0, 2, 0), "chore: bump version to 0.2.0").unwrap();
    let wide = repo.head().unwrap().peel_to_commit().unwrap();
    assert_eq!(wide.tree().unwrap().len(), 1);
    drop(pending);
}

#[test]
fn missing_repository_is_not_found() {
    let dir = tempfile::tempdir().unwrap();
    let err = match Git::open(dir.path().to_str().unwrap(), "main", "t@example.com", "T") {
        Err(e) => e,
        Ok(_) => panic!("an empty directory is no repository"),
    };
    assert_eq!(err, ReleaseError::RepositoryNotFound);
}

#[test]
fn overrides_beat_configuration() {
    let id = resolve_identity(
        Some("Over".to_string()),
        Some("over@example.com".to_string()),
        Some("Conf".to_string()),
        Some("conf@example.com".to_string()),
    )
    .unwrap();
    assert_eq!(id.name, "Over");
    assert_eq!(id.email, "over@example.com");
}

#[test]
fn each_field_falls_back_on_its_own() {
    let id = resolve_identity(
        Some("Over".to_string()),
        None,
        None,
        Some("conf@example.com".to_string()),
    )
    .unwrap();
    assert_eq!(id.name, "Over");
    assert_eq!(id.email, "conf@example.com");
}

#[test]
fn missing_identity_field_is_unavailable() {
    let err = resolve_identity(None, Some("over@example.com".to_string()), None, None)
        .unwrap_err();
    assert_eq!(err, ReleaseError::IdentityUnavailable);
    let err = resolve_identity(Some("Over".to_string()), None, Some("Conf".to_string()), None)
        .unwrap_err();
    assert_eq!(err, ReleaseError::IdentityUnavailable);
}

#[test]
fn an_unborn_head_is_exactly_no_head() {
    let id = vec![7u8; 20];
    assert_eq!(head_to_parent(HeadOutcome::Found(id.clone())).unwrap(), id);
    assert_eq!(head_to_parent(HeadOutcome::Unborn).unwrap_err(), ReleaseError::NoHead);
    assert_eq!(head_to_parent(HeadOutcome::Failed).unwrap_err(), ReleaseError::CommitFailed);
}

#[test]
fn a_taken_tag_name_is_exactly_tag_exists() {
    assert_eq!(tag_to_result(TagOutcome::Created(vec![7u8; 20])), Ok(()));
    assert_eq!(tag_to_result(TagOutcome::Exists), Err(ReleaseError::TagExists));
    assert_eq!(tag_to_result(TagOutcome::Failed), Err(ReleaseError::CommitFailed));
}

#[test]
fn from_env_overrides_stamp_the_client() {
    let dir = tempfile::tempdir().unwrap();
    git2::Repository::init(dir.path()).unwrap();
    let git = Git::from_env(
        dir.path().to_str().unwrap(),
        "main",
        Some("EnvName".to_string()),
        Some("env@example.com".to_string()),
    )
    .unwrap();
    assert_eq!(git.name, "EnvName");
    assert_eq!(git.email, "env@example.com");
    assert_eq!(git.branch, "main");
}
