//! The manifest store: reads the package version out of the manifest text
//! and rewrites only that field, preserving every other byte of the file.
//! The file itself is read and written by the caller; this module works on
//! its text.

use vstd::prelude::*;

use crate::version::{
    is_version_literal, lemma_version_text_injective, lemma_version_text_literal, parse_version,
    spec_version_text, Version,
};
use crate::ReleaseError;

verus! {

/// The string value of the `package.version` field that the manifest text
/// holds, as that string's bytes; `None` where the text is not well-formed
/// TOML or holds no such string field. A function of the text alone.
pub uninterp spec fn manifest_version(text: Seq<char>) -> Option<Seq<u8>>;

/// The manifest text with the string value of its `package.version` field
/// replaced by `v`: every other field, comment and piece of formatting is
/// kept as it stands. A function of the text and the new value alone.
pub uninterp spec fn manifest_with_version(text: Seq<char>, v: Seq<u8>) -> Seq<char>;

/// Relies on toml_edit's parser (`str::parse::<DocumentMut>`), `Table::get`
/// and `Item::as_str`: reads the string value of `package.version` out of
/// the manifest text, a function of the text alone.
#[verifier::external_body]
fn read_version_value(text: &str) -> (r: Option<Vec<u8>>)
    ensures
        match r {
            Some(b) => manifest_version(text@) == Some(b@),
            None => manifest_version(text@) is None,
        },
{
    let doc = text.parse::<toml_edit::DocumentMut>().ok()?;
    let value = doc.get("package").and_then(|p| p.get("version")).and_then(|i| i.as_str())?;
    Some(value.as_bytes().to_vec())
}

/// Relies on toml_edit's format-preserving editing (`str::parse::<DocumentMut>`,
/// index assignment with `toml_edit::value`, `DocumentMut`'s `Display`):
/// assigning `package.version` a new string value and writing the document
/// back changes that field's value and nothing else, and a plain
/// digits-and-dots value is written as a quoted TOML string that reads back
/// as itself.
#[verifier::external_body]
fn write_version_value(text: &str, v: &Vec<u8>) -> (r: Option<String>)
    requires
        is_version_literal(v@),
    ensures
        match r {
            Some(out) => manifest_version(text@) is Some && out@ == manifest_with_version(
                text@,
                v@,
            ) && manifest_version(out@) == Some(v@),
            None => manifest_version(text@) is None,
        },
{
    let mut doc = text.parse::<toml_edit::DocumentMut>().ok()?;
    doc.get("package").and_then(|p| p.get("version")).and_then(|i| i.as_str())?;
    let value = String::from_utf8(v.clone()).ok()?;
    doc["package"]["version"] = toml_edit::value(value);
    Some(doc.to_string())
}

/// The version the manifest text holds, where its `package.version` field
/// holds the canonical text of one.
pub open spec fn spec_manifest_version(text: Seq<char>) -> Option<Version> {
    if exists|v: Version| manifest_version(text) == Some(#[trigger] spec_version_text(v)) {
        Some(choose|v: Version| manifest_version(text) == Some(#[trigger] spec_version_text(v)))
    } else {
        None
    }
}

/// Reloading after a version-only rewrite yields exactly the new version:
/// a text whose version field holds a version's canonical rendering - what
/// `write_version` leaves behind - is loaded back as that version and no
/// other, because the canonical text determines the version uniquely.
pub proof fn lemma_reload_after_rewrite(text: Seq<char>, v: Version)
    requires
        manifest_version(text) == Some(spec_version_text(v)),
    ensures
        spec_manifest_version(text) == Some(v),
{
    let w = choose|u: Version| manifest_version(text) == Some(#[trigger] spec_version_text(u));
    lemma_version_text_injective(w, v);
}

/// Metadata for the manifest that was loaded: where it came from, kept so
/// the caller can write the file back to the same place.
#[derive(Debug, Default)]
pub struct Metadata {
    pub path: String,
}

/// The subset of the manifest's `package` section that a release needs: the
/// crate version.
#[derive(Debug)]
pub struct Package {
    pub version: Version,
}

/// A loaded manifest: the parsed version, the file location, and the exact
/// text that was read, kept so that a rewrite preserves everything but the
/// version field.
#[derive(Debug)]
pub struct CargoToml {
    pub package: Package,
    pub meta: Metadata,
    pub text: String,
}

impl CargoToml {
    /// A loaded manifest's text holds exactly the canonical rendering of its
    /// parsed version in `package.version`.
    pub open spec fn wf(self) -> bool {
        manifest_version(self.text@) == Some(spec_version_text(self.package.version))
    }

    /// Reads a manifest from the text of the file at `path`. Succeeds exactly
    /// when the text holds a `package.version` string that is the canonical
    /// text of a version; every other text is rejected as a parse error.
    /// An absent file is the caller's to report: there is no text to read then.
    pub fn open(path: &str, text: &str) -> (r: Result<CargoToml, ReleaseError>)
        ensures
            r matches Ok(m) ==> m.wf() && m.text@ == text@ && m.meta.path@ == path@,
            r matches Ok(m) ==> spec_manifest_version(text@) == Some(m.package.version),
            r is Ok <==> spec_manifest_version(text@) is Some,
            r matches Err(e) ==> e == ReleaseError::ManifestParseError,
    {
        let bytes = match read_version_value(text) {
            Some(b) => b,
            None => {
                return Err(ReleaseError::ManifestParseError);
            },
        };
        let version = match parse_version(&bytes) {
            Some(v) => v,
            None => {
                proof {
                    if exists|v: Version|
                        manifest_version(text@) == Some(#[trigger] spec_version_text(v)) {
                        let w = choose|v: Version|
                            manifest_version(text@) == Some(#[trigger] spec_version_text(v));
                        assert(bytes@ == spec_version_text(w));
                        assert(false);
                    }
                }
                return Err(ReleaseError::ManifestParseError);
            },
        };
        proof {
            assert(manifest_version(text@) == Some(spec_version_text(version)));
            let w = choose|v: Version|
                manifest_version(text@) == Some(#[trigger] spec_version_text(v));
            lemma_version_text_injective(w, version);
        }
        Ok(
            CargoToml {
                package: Package { version },
                meta: Metadata { path: String::from_str(path) },
                text: String::from_str(text),
            },
        )
    }

    /// Rewrites only the version field of the manifest text and returns the
    /// new text; the caller writes it back to the file. Where the version is
    /// unchanged, the text comes back as it stands, byte for byte, so a
    /// load followed by a persist of the same version reproduces the file.
    pub fn write_version(&self, version: &Version) -> (r: String)
        requires
            self.wf(),
        ensures
            manifest_version(r@) == Some(spec_version_text(*version)),
            *version == self.package.version ==> r@ == self.text@,
            *version != self.package.version ==> r@ == manifest_with_version(
                self.text@,
                spec_version_text(*version),
            ),
    {
        if *version == self.package.version {
            return String::from_str(self.text.as_str());
        }
        let bytes = version.text_bytes();
        proof {
            lemma_version_text_literal(*version);
        }
        match write_version_value(self.text.as_str(), &bytes) {
            Some(out) => out,
            None => {
                proof {
                    assert(false);
                }
                String::from_str(self.text.as_str())
            },
        }
    }
}

} // verus!
