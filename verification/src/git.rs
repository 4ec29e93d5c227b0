//! The tagging engine: resolves the committer identity, stages the working
//! tree, creates the release commit on the branch, and creates the annotated
//! tag pointing at that commit. The repository work is done by git2 behind
//! narrow trusted wrappers; every decision around those calls is verified.

use vstd::prelude::*;

use crate::version::Version;
use crate::ReleaseError;

verus! {

/// The git2 repository handle; opaque here, carried between the wrappers.
#[verifier::external_type_specification]
#[verifier::external_body]
pub struct ExRepository(git2::Repository);

/// The (name, email) pair that stamps the commit author, committer, and tag
/// annotation author.
#[derive(Debug)]
pub struct Identity {
    pub name: String,
    pub email: String,
}

/// Which value a field of the identity resolves to: the override where one
/// is given, else the configured value.
pub open spec fn resolved_field(over: Option<Seq<char>>, config: Option<Seq<char>>) -> Option<
    Seq<char>,
> {
    if over is Some {
        over
    } else {
        config
    }
}

/// The view of an optional string.
pub open spec fn opt_text(o: Option<String>) -> Option<Seq<char>> {
    match o {
        Some(s) => Some(s@),
        None => None,
    }
}

/// Resolves the committer identity: each field takes its override where one
/// is given and falls back to the configured value on its own; the identity
/// is unavailable exactly where either field resolves to nothing. No partial
/// identity is ever produced.
pub fn resolve_identity(
    override_name: Option<String>,
    override_email: Option<String>,
    config_name: Option<String>,
    config_email: Option<String>,
) -> (r: Result<Identity, ReleaseError>)
    ensures
        r matches Ok(id) ==> resolved_field(opt_text(override_name), opt_text(config_name))
            == Some(id.name@) && resolved_field(opt_text(override_email), opt_text(config_email))
            == Some(id.email@),
        r is Ok <==> (resolved_field(opt_text(override_name), opt_text(config_name)) is Some
            && resolved_field(opt_text(override_email), opt_text(config_email)) is Some),
        r matches Err(e) ==> e == ReleaseError::IdentityUnavailable,
{
    let name = match override_name {
        Some(n) => n,
        None => match config_name {
            Some(n) => n,
            None => {
                return Err(ReleaseError::IdentityUnavailable);
            },
        },
    };
    let email = match override_email {
        Some(e) => e,
        None => match config_email {
            Some(e) => e,
            None => {
                return Err(ReleaseError::IdentityUnavailable);
            },
        },
    };
    Ok(Identity { name, email })
}

/// Identity resolution precedence: where an override is present, the field
/// resolves to the override, whatever the configuration holds.
pub proof fn lemma_override_precedence(
    name: Seq<char>,
    email: Seq<char>,
    config_name: Option<Seq<char>>,
    config_email: Option<Seq<char>>,
)
    ensures
        resolved_field(Some(name), config_name) == Some(name),
        resolved_field(Some(email), config_email) == Some(email),
{
}

/// What a lookup of the repository's HEAD commit found.
pub enum HeadOutcome {
    /// The id of the commit HEAD points at.
    Found(Vec<u8>),
    /// The branch has no commits yet.
    Unborn,
    /// The repository failed the lookup for any other reason.
    Failed,
}

/// What creating a tag did.
pub enum TagOutcome {
    /// The tag was created; the id of the new tag object.
    Created(Vec<u8>),
    /// A tag with that name already exists; nothing was written.
    Exists,
    /// The repository refused the tag for any other reason.
    Failed,
}

/// Relies on `git2::Repository::open`: opens the repository at `path`, or
/// nothing where none can be opened there.
#[verifier::external_body]
fn repo_open(path: &str) -> (r: Option<git2::Repository>) {
    git2::Repository::open(path).ok()
}

/// Relies on `git2::Config::open_default` and `Config::get_entry`: the value
/// of `key` in the default git configuration, where one exists as text. A
/// key set without a value (boolean shorthand) yields nothing; the
/// `has_value` guard keeps `ConfigEntry::value` off its panic path.
#[verifier::external_body]
fn config_lookup(key: &str) -> (r: Option<String>) {
    let cfg = git2::Config::open_default().ok()?;
    let entry = cfg.get_entry(key).ok()?;
    if !entry.has_value() {
        return None;
    }
    let value = entry.value().ok()?;
    Some(value.to_string())
}

/// Relies on `git2::Repository::head` and `Reference::peel_to_commit`: the
/// 20-byte id of the commit at HEAD; `Unborn` exactly where the repository
/// reports an unborn branch, that is, no commits yet.
#[verifier::external_body]
fn head_commit(repo: &git2::Repository) -> (r: HeadOutcome)
    ensures
        r matches HeadOutcome::Found(id) ==> id@.len() == 20,
{
    let head = match repo.head() {
        Ok(h) => h,
        Err(e) if e.code() == git2::ErrorCode::UnbornBranch => return HeadOutcome::Unborn,
        Err(_) => return HeadOutcome::Failed,
    };
    match head.peel_to_commit() {
        Ok(c) => HeadOutcome::Found(c.id().as_bytes().to_vec()),
        Err(_) => HeadOutcome::Failed,
    }
}

/// What a release commit stages: every changed file of the working tree
/// (the default: a release commit captures any pending change), or the
/// manifest and lockfile alone.
#[derive(Clone, Copy, PartialEq, Eq, Structural, Debug)]
pub enum StagingMode {
    Everything,
    ManifestOnly,
}

/// The pathspecs a staging mode stages.
pub open spec fn spec_pathspecs(mode: StagingMode) -> Seq<Seq<char>> {
    match mode {
        StagingMode::Everything => seq!["*"@],
        StagingMode::ManifestOnly => seq!["Cargo.toml"@, "Cargo.lock"@],
    }
}

/// Builds the pathspec list a staging mode stages.
fn staging_pathspecs(mode: StagingMode) -> (r: Vec<String>)
    ensures
        r@.map_values(|s: String| s@) == spec_pathspecs(mode),
{
    let mut specs: Vec<String> = Vec::new();
    match mode {
        StagingMode::Everything => {
            specs.push(String::from_str("*"));
        },
        StagingMode::ManifestOnly => {
            specs.push(String::from_str("Cargo.toml"));
            specs.push(String::from_str("Cargo.lock"));
        },
    }
    proof {
        assert(specs@.map_values(|s: String| s@) =~= spec_pathspecs(mode));
    }
    specs
}

/// Relies on `git2::Repository::index`, `Index::add_all` with the given
/// pathspecs, and `Index::write_tree`: stages the files the pathspecs match
/// and writes the staged index as a tree object, returning the tree's
/// 20-byte id.
#[verifier::external_body]
fn stage_and_write_tree(repo: &git2::Repository, pathspecs: &Vec<String>) -> (r: Option<Vec<u8>>)
    ensures
        r matches Some(id) ==> id@.len() == 20,
{
    let mut index = repo.index().ok()?;
    let specs = pathspecs.iter().map(|s| s.as_str());
    index.add_all(specs, git2::IndexAddOption::DEFAULT, None).ok()?;
    let oid = index.write_tree().ok()?;
    Some(oid.as_bytes().to_vec())
}

/// Relies on `git2::Repository::commit`, with `git2::Signature::now`,
/// `Oid::from_bytes`, `find_tree` and `find_commit` converting the
/// arguments: creates a commit holding `tree` whose sole parent is `parent`,
/// updates `refs/heads/<branch>` to point at it, and returns the new
/// commit's 20-byte id.
#[verifier::external_body]
fn commit_on_branch(
    repo: &git2::Repository,
    branch: &str,
    name: &str,
    email: &str,
    message: &str,
    tree: &Vec<u8>,
    parent: &Vec<u8>,
) -> (r: Option<Vec<u8>>)
    requires
        tree@.len() == 20,
        parent@.len() == 20,
    ensures
        r matches Some(id) ==> id@.len() == 20,
{
    let signature = git2::Signature::now(name, email).ok()?;
    let tree_oid = git2::Oid::from_bytes(tree.as_slice()).ok()?;
    let parent_oid = git2::Oid::from_bytes(parent.as_slice()).ok()?;
    let tree = repo.find_tree(tree_oid).ok()?;
    let parent = repo.find_commit(parent_oid).ok()?;
    let refname = format!("refs/heads/{}", branch);
    let id = repo.commit(Some(&refname), &signature, &signature, message, &tree, &[&parent]).ok()?;
    Some(id.as_bytes().to_vec())
}

/// Relies on `git2::Repository::tag` with `force` false, with
/// `git2::Signature::now` and `find_commit` converting the arguments:
/// creates an annotated tag named `tag_name` pointing at the commit
/// `target`; `Exists` exactly where the repository refuses the name because
/// it is already taken, in which case nothing is written.
#[verifier::external_body]
fn create_tag(
    repo: &git2::Repository,
    tag_name: &str,
    target: &Vec<u8>,
    name: &str,
    email: &str,
    message: &str,
) -> (r: TagOutcome)
    requires
        target@.len() == 20,
    ensures
        r matches TagOutcome::Created(id) ==> id@.len() == 20,
{
    let Ok(tagger) = git2::Signature::now(name, email) else { return TagOutcome::Failed };
    let Ok(oid) = git2::Oid::from_bytes(target.as_slice()) else { return TagOutcome::Failed };
    let Ok(commit) = repo.find_commit(oid) else { return TagOutcome::Failed };
    match repo.tag(tag_name, commit.as_object(), &tagger, message, false) {
        Ok(id) => TagOutcome::Created(id.as_bytes().to_vec()),
        Err(e) if e.code() == git2::ErrorCode::Exists => TagOutcome::Exists,
        Err(_) => TagOutcome::Failed,
    }
}

/// Turns a HEAD lookup into the release's parent commit: a repository with
/// no commits yet is exactly the `NoHead` failure, and nothing more is
/// attempted then.
pub fn head_to_parent(h: HeadOutcome) -> (r: Result<Vec<u8>, ReleaseError>)
    ensures
        h matches HeadOutcome::Found(id) ==> (r matches Ok(p) && p@ == id@),
        h is Unborn <==> r == Err::<Vec<u8>, ReleaseError>(ReleaseError::NoHead),
        h is Failed <==> r == Err::<Vec<u8>, ReleaseError>(ReleaseError::CommitFailed),
        r is Ok <==> h is Found,
{
    match h {
        HeadOutcome::Found(id) => Ok(id),
        HeadOutcome::Unborn => Err(ReleaseError::NoHead),
        HeadOutcome::Failed => Err(ReleaseError::CommitFailed),
    }
}

/// Turns the tag outcome into the release's result: a name already taken is
/// exactly the `TagExists` failure, never a silent overwrite.
pub fn tag_to_result(t: TagOutcome) -> (r: Result<(), ReleaseError>)
    ensures
        t is Created <==> r is Ok,
        t is Exists <==> r == Err::<(), ReleaseError>(ReleaseError::TagExists),
        t is Failed <==> r == Err::<(), ReleaseError>(ReleaseError::CommitFailed),
{
    match t {
        TagOutcome::Created(_) => Ok(()),
        TagOutcome::Exists => Err(ReleaseError::TagExists),
        TagOutcome::Failed => Err(ReleaseError::CommitFailed),
    }
}

/// Performs the repository side of a release: a commit of the staged
/// working tree on the configured branch, then an annotated tag, both
/// stamped with the resolved identity.
pub struct Git {
    pub email: String,
    pub name: String,
    pub branch: String,
    pub staging: StagingMode,
    pub repo: git2::Repository,
}

impl Git {
    /// Opens the repository at `path` for operations on `branch`, stamped
    /// with `email` and `name`, staging everything changed by default. Fails
    /// exactly where no repository can be opened there.
    pub fn open(path: &str, branch: &str, email: &str, name: &str) -> (r: Result<
        Git,
        ReleaseError,
    >)
        ensures
            r matches Ok(g) ==> g.branch@ == branch@ && g.email@ == email@ && g.name@ == name@
                && g.staging == StagingMode::Everything,
            r matches Err(e) ==> e == ReleaseError::RepositoryNotFound,
    {
        match repo_open(path) {
            Some(repo) => Ok(
                Git {
                    email: String::from_str(email),
                    name: String::from_str(name),
                    branch: String::from_str(branch),
                    staging: StagingMode::Everything,
                    repo,
                },
            ),
            None => Err(ReleaseError::RepositoryNotFound),
        }
    }

    /// Builds the client from override identity values (the surrounding
    /// program reads them from its environment); each field falls back on
    /// its own to `user.name` / `user.email` of the git configuration where
    /// no override is given. Override values always win: with both overrides
    /// present the identity resolves to them whatever the configuration
    /// holds, and only opening the repository can still fail.
    pub fn from_env(path: &str, branch: &str, env_name: Option<String>, env_email: Option<String>) -> (r:
        Result<Git, ReleaseError>)
        ensures
            r matches Ok(g) ==> g.branch@ == branch@,
            r matches Ok(g) ==> (env_name matches Some(n) ==> g.name@ == n@),
            r matches Ok(g) ==> (env_email matches Some(e) ==> g.email@ == e@),
            r matches Err(e) ==> (e == ReleaseError::IdentityUnavailable || e
                == ReleaseError::RepositoryNotFound),
            (env_name is Some && env_email is Some) ==> r != Err::<Git, ReleaseError>(
                ReleaseError::IdentityUnavailable,
            ),
    {
        let config_name = config_lookup("user.name");
        let config_email = config_lookup("user.email");
        let id = match resolve_identity(env_name, env_email, config_name, config_email) {
            Ok(i) => i,
            Err(e) => {
                return Err(e);
            },
        };
        Git::open(path, branch, id.email.as_str(), id.name.as_str())
    }

    /// Builds the client from the git configuration alone.
    pub fn from_git_config(path: &str, branch: &str) -> (r: Result<Git, ReleaseError>)
        ensures
            r matches Ok(g) ==> g.branch@ == branch@,
            r matches Err(e) ==> (e == ReleaseError::IdentityUnavailable || e
                == ReleaseError::RepositoryNotFound),
    {
        Git::from_env(path, branch, None, None)
    }

    /// Stages what the staging mode selects, builds the tree, and creates a
    /// commit on the branch whose sole parent is the current HEAD commit;
    /// returns the new commit's id. A repository with no commits yet is
    /// exactly the `NoHead` failure and nothing further is written; any
    /// other repository failure is `CommitFailed`.
    pub fn commit(&self, message: &str) -> (r: Result<Vec<u8>, ReleaseError>)
        ensures
            r matches Ok(id) ==> id@.len() == 20,
            r matches Err(e) ==> (e == ReleaseError::NoHead || e == ReleaseError::CommitFailed),
    {
        let head = head_commit(&self.repo);
        let parent = match head_to_parent(head) {
            Ok(p) => p,
            Err(e) => {
                return Err(e);
            },
        };
        let pathspecs = staging_pathspecs(self.staging);
        let tree = match stage_and_write_tree(&self.repo, &pathspecs) {
            Some(t) => t,
            None => {
                return Err(ReleaseError::CommitFailed);
            },
        };
        match commit_on_branch(
            &self.repo,
            self.branch.as_str(),
            self.name.as_str(),
            self.email.as_str(),
            message,
            &tree,
            &parent,
        ) {
            Some(id) => Ok(id),
            None => Err(ReleaseError::CommitFailed),
        }
    }

    /// Creates the annotated tag named after the version's canonical text,
    /// pointing at the commit `target`, stamped with the client's identity
    /// and carrying `message`. A name already taken is exactly the
    /// `TagExists` failure, and the existing tag is left untouched.
    pub fn tag(&self, version: &Version, target: &Vec<u8>, message: &str) -> (r: Result<
        (),
        ReleaseError,
    >)
        requires
            target@.len() == 20,
        ensures
            r matches Err(e) ==> (e == ReleaseError::TagExists || e == ReleaseError::CommitFailed),
    {
        let name_text = version.to_text();
        let outcome = create_tag(
            &self.repo,
            name_text.as_str(),
            target,
            self.name.as_str(),
            self.email.as_str(),
            message,
        );
        tag_to_result(outcome)
    }

    /// The repository half of a release, after the manifest is written:
    /// create the commit on the branch, then the annotated tag pointing at
    /// that new commit. A failing step aborts the rest, and completed steps
    /// are not rolled back: a `TagExists` failure leaves the new commit in
    /// place, a documented window of inconsistency.
    pub fn release(&self, version: &Version, message: &str) -> (r: Result<(), ReleaseError>)
        ensures
            r matches Err(e) ==> (e == ReleaseError::NoHead || e == ReleaseError::TagExists || e
                == ReleaseError::CommitFailed),
    {
        let commit_id = match self.commit(message) {
            Ok(id) => id,
            Err(e) => {
                return Err(e);
            },
        };
        self.tag(version, &commit_id, message)
    }
}

} // verus!
