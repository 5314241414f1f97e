//! Keeping the version fields of the npm package files on one release version.

use vstd::prelude::*;
use crate::pattern::{
    compile_pattern, match_count, regex_compiles, regex_match_count, regex_replacen,
    replace_matches,
};
use crate::text::{decimal, decimal_text};

verus! {

/// A `"version": "..."` field standing alone on its line; group 1 is what
/// precedes the value, group 2 the closing quote and an optional comma.
pub const VERSION_LINE_PATTERN: &'static str = r#"(?m)^(\s*\"version\"\s*:\s*\")[^\"]+(\",?)$"#;

/// How many version fields of `package.json` carry the package's version.
pub const MANIFEST_VERSION_FIELDS: usize = 1;

/// How many version fields of `package-lock.json` carry the package's version:
/// the top-level one and the one of the root package entry.
pub const LOCKFILE_VERSION_FIELDS: usize = 2;

/// Why a file's version fields could not be updated.
#[derive(Debug, Clone, Copy, PartialEq, Eq, Structural)]
pub enum VersionSyncError {
    /// The version-field pattern was rejected by the regular-expression engine.
    InvalidMatcher,
    /// The file has fewer version fields than must be rewritten.
    TooFewFields { found: usize, expected: usize },
}

/// The message shown for `e`, naming the file `file`.
pub open spec fn sync_error_message(e: VersionSyncError, file: Seq<char>) -> Seq<char> {
    match e {
        VersionSyncError::InvalidMatcher => "Failed to build version matcher"@,
        VersionSyncError::TooFewFields { found, expected } => file + " contains "@ + decimal(
            found as nat,
        ) + " version fields; expected at least "@ + decimal(expected as nat),
    }
}

impl VersionSyncError {
    /// The message shown to the user for an error in the file `file`.
    pub fn message(&self, file: &str) -> (m: String)
        ensures
            m@ == sync_error_message(*self, file@),
    {
        match self {
            VersionSyncError::InvalidMatcher => "Failed to build version matcher".to_owned(),
            VersionSyncError::TooFewFields { found, expected } => {
                let mut m = file.to_owned();
                m.append(" contains ");
                let found_text = decimal_text(*found);
                m.append(found_text.as_str());
                m.append(" version fields; expected at least ");
                let expected_text = decimal_text(*expected);
                m.append(expected_text.as_str());
                m
            },
        }
    }
}

/// The replacement that keeps both groups of a version line and puts
/// `version` between them.
pub open spec fn version_replacement_text(version: Seq<char>) -> Seq<char> {
    "${1}"@ + version + "${2}"@
}

/// The replacement text for the version lines, as the regex engine expands it.
pub fn version_replacement(version: &str) -> (r: String)
    ensures
        r@ == version_replacement_text(version@),
{
    let mut r = "${1}".to_owned();
    r.append(version);
    r.append("${2}");
    r
}

/// `Ok` when `found` version fields are enough to rewrite `expected` of them.
pub open spec fn spec_check_field_count(found: usize, expected: usize) -> Result<(), VersionSyncError> {
    if found < expected {
        Err(VersionSyncError::TooFewFields { found, expected })
    } else {
        Ok(())
    }
}

/// Checks that a file with `found` version fields has the `expected` ones.
pub fn check_field_count(found: usize, expected: usize) -> (r: Result<(), VersionSyncError>)
    ensures
        r == spec_check_field_count(found, expected),
{
    if found < expected {
        Err(VersionSyncError::TooFewFields { found, expected })
    } else {
        Ok(())
    }
}

/// What updating the first `expected` version fields of `content` to
/// `version` gives.
pub open spec fn spec_update_version_fields(
    content: Seq<char>,
    version: Seq<char>,
    expected: usize,
) -> Result<Seq<char>, VersionSyncError> {
    if !regex_compiles(VERSION_LINE_PATTERN@) {
        Err(VersionSyncError::InvalidMatcher)
    } else {
        match spec_check_field_count(regex_match_count(VERSION_LINE_PATTERN@, content), expected) {
            Err(e) => Err(e),
            Ok(_) => Ok(
                regex_replacen(
                    VERSION_LINE_PATTERN@,
                    content,
                    expected,
                    version_replacement_text(version),
                ),
            ),
        }
    }
}

/// The view of an update's outcome.
pub open spec fn update_outcome(r: Result<String, VersionSyncError>) -> Result<Seq<char>, VersionSyncError> {
    match r {
        Ok(s) => Ok(s@),
        Err(e) => Err(e),
    }
}

/// Rewrites the first `expected` version fields of `content` to `version`,
/// leaving every later one (those of dependencies in a lockfile) as it was.
pub fn update_version_fields(content: &str, version: &str, expected: usize) -> (r: Result<
    String,
    VersionSyncError,
>)
    ensures
        update_outcome(r) == spec_update_version_fields(content@, version@, expected),
{
    let pattern = match compile_pattern(VERSION_LINE_PATTERN) {
        Some(p) => p,
        None => return Err(VersionSyncError::InvalidMatcher),
    };
    let found = match_count(&pattern, content);
    match check_field_count(found, expected) {
        Err(e) => Err(e),
        Ok(()) => {
            let replacement = version_replacement(version);
            Ok(replace_matches(&pattern, content, expected, replacement.as_str()))
        },
    }
}

} // verus!
