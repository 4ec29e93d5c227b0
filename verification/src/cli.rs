//! The command layer: which command was selected and what executing it asks
//! of the surrounding program. Reading the manifest file, running the
//! external verification command, and performing the repository work happen
//! around this; the decisions are made here.

use vstd::prelude::*;

use crate::cargo_toml::{manifest_version, manifest_with_version, spec_manifest_version, CargoToml};
use crate::version::{bumped_component, spec_bump, spec_version_chars, spec_version_text, Digit, Version};
use crate::ReleaseError;

verus! {

/// What executing a command asks the surrounding program to do: print the
/// current version, or write the new manifest text back, run the external
/// verification command, and then commit and tag the bumped version under
/// the given message.
#[derive(Debug)]
pub enum ExecPlan {
    /// Print the current version; nothing is mutated.
    Print { version_text: String },
    /// Release the bumped version.
    Release {
        /// The manifest text with only the version field rewritten.
        new_manifest: String,
        /// The bumped version.
        version: Version,
        /// The bumped version's canonical text: the tag name.
        version_text: String,
        /// The message for both the commit and the tag annotation.
        message: String,
    },
}

/// The commands of the tool: print the current package version, or bump one
/// component of it and release the result.
#[derive(Clone, Copy, PartialEq, Eq, Structural, Debug)]
pub enum Command {
    /// Print current package version.
    Current,
    /// Bump the minor version, commit, and tag.
    Minor,
    /// Bump the major version, commit, and tag.
    Major,
    /// Bump the patch version, commit, and tag.
    Patch,
}

/// The command-line surface: everything stands under the `tag` subcommand.
#[derive(Clone, Copy, PartialEq, Eq, Structural, Debug)]
pub enum Cli {
    Tag(Command),
}

/// The bump a command selects; `Current` selects none.
pub open spec fn spec_digit(c: Command) -> Option<Digit> {
    match c {
        Command::Current => None,
        Command::Major => Some(Digit::Major),
        Command::Minor => Some(Digit::Minor),
        Command::Patch => Some(Digit::Patch),
    }
}

impl Command {
    /// Executes the command against a loaded manifest. `Current` asks for
    /// the current version to be printed. A bump command yields the bumped
    /// version, the manifest text with only the version field rewritten, the
    /// tag name, and the commit message; a bump whose component stands at
    /// the integer maximum is refused loudly instead of wrapping.
    pub fn exec(&self, manifest: &CargoToml) -> (r: Result<ExecPlan, ReleaseError>)
        requires
            manifest.wf(),
        ensures
            match spec_digit(*self) {
                None => r matches Ok(p) && p matches ExecPlan::Print { version_text }
                    && version_text@ == spec_version_chars(manifest.package.version),
                Some(d) => if bumped_component(manifest.package.version, d) < u64::MAX {
                    r matches Ok(p) && p matches ExecPlan::Release {
                        new_manifest,
                        version,
                        version_text,
                        message,
                    } && version == spec_bump(manifest.package.version, d) && manifest_version(
                        new_manifest@,
                    ) == Some(spec_version_text(spec_bump(manifest.package.version, d)))
                        && new_manifest@ == manifest_with_version(
                        manifest.text@,
                        spec_version_text(spec_bump(manifest.package.version, d)),
                    ) && version_text@ == spec_version_chars(spec_bump(manifest.package.version, d))
                        && message@ == "chore: bump version to "@ + spec_version_chars(
                        spec_bump(manifest.package.version, d),
                    )
                } else {
                    r == Err::<ExecPlan, ReleaseError>(ReleaseError::VersionOverflow)
                },
            },
    {
        let digit = match self {
            Command::Current => {
                let version_text = manifest.package.version.to_text();
                return Ok(ExecPlan::Print { version_text });
            },
            Command::Major => Digit::Major,
            Command::Minor => Digit::Minor,
            Command::Patch => Digit::Patch,
        };
        let mut version = manifest.package.version;
        let in_range = match digit {
            Digit::Major => version.major < u64::MAX,
            Digit::Minor => version.minor < u64::MAX,
            Digit::Patch => version.patch < u64::MAX,
        };
        if !in_range {
            return Err(ReleaseError::VersionOverflow);
        }
        version.bump(digit);
        let version_text = version.to_text();
        let new_manifest = manifest.write_version(&version);
        let mut message = String::from_str("chore: bump version to ");
        message.append(version_text.as_str());
        Ok(ExecPlan::Release { new_manifest, version, version_text, message })
    }
}

impl Cli {
    /// Executes the selected command against the text of the manifest file
    /// at `path`: the one entry into a release. The text is parsed first; a
    /// text without a well-formed version is rejected before anything else
    /// is decided.
    pub fn exec(&self, path: &str, text: &str) -> (r: Result<ExecPlan, ReleaseError>)
        ensures
            spec_manifest_version(text@) is None <==> r == Err::<ExecPlan, ReleaseError>(
                ReleaseError::ManifestParseError,
            ),
            *self matches Cli::Tag(cmd) ==> (spec_manifest_version(text@) matches Some(cur)
                ==> match spec_digit(cmd) {
                None => r matches Ok(p) && p matches ExecPlan::Print { version_text }
                    && version_text@ == spec_version_chars(cur),
                Some(d) => if bumped_component(cur, d) < u64::MAX {
                    r matches Ok(p) && p matches ExecPlan::Release {
                        new_manifest,
                        version,
                        version_text,
                        message,
                    } && version == spec_bump(cur, d) && manifest_version(new_manifest@) == Some(
                        spec_version_text(spec_bump(cur, d)),
                    ) && new_manifest@ == manifest_with_version(
                        text@,
                        spec_version_text(spec_bump(cur, d)),
                    ) && version_text@ == spec_version_chars(spec_bump(cur, d)) && message@
                        == "chore: bump version to "@ + spec_version_chars(spec_bump(cur, d))
                } else {
                    r == Err::<ExecPlan, ReleaseError>(ReleaseError::VersionOverflow)
                },
            }),
    {
        match self {
            Cli::Tag(cmd) => {
                let manifest = match CargoToml::open(path, text) {
                    Ok(m) => m,
                    Err(e) => {
                        return Err(e);
                    },
                };
                cmd.exec(&manifest)
            },
        }
    }
}

} // verus!
