//! Release versioning for a package: bump a semantic version, rewrite the
//! package manifest's version field while preserving the rest of the file,
//! and record the release as a commit plus an annotated tag in the local
//! repository.

use vstd::prelude::*;

pub mod cargo_toml;
pub mod cli;
pub mod git;
pub mod version;

verus! {

/// Every failure a release operation can report. The command layer is the
/// only place these are rendered for the user.
///
/// Once the manifest has been rewritten, a later failure (for example
/// `TagExists`) leaves the manifest bumped but the repository untagged; that
/// window is deliberate, not hidden: no step rolls an earlier one back.
#[derive(Clone, Copy, PartialEq, Eq, Structural, Debug)]
pub enum ReleaseError {
    /// The manifest file is absent from the working directory.
    ManifestNotFound,
    /// The manifest text does not hold a well-formed `package.version` field.
    ManifestParseError,
    /// Writing the rewritten manifest to disk failed.
    ManifestWriteError,
    /// Neither the overrides nor the repository configuration yield both a
    /// committer name and email.
    IdentityUnavailable,
    /// No repository could be opened at the working directory.
    RepositoryNotFound,
    /// The repository has no commits yet, so no parent for a release commit.
    NoHead,
    /// A tag with the requested name already exists; it is never overwritten.
    TagExists,
    /// Staging, committing, or writing the tag object failed.
    CommitFailed,
    /// The external consistency-check command reported failure; this is
    /// reported but does not abort the remaining steps.
    VerificationCommandFailed,
    /// The bumped component of the version would exceed its integer range;
    /// the bump is refused rather than silently wrapped.
    VersionOverflow,
}

} // verus!
