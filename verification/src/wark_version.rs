//! The oldest version of the tool that a configuration accepts.

use vstd::prelude::*;
use semver::{SemVerError, Version};

verus! {

/// `semver::Version`: a parsed version, carried through as it is.
#[verifier::external_type_specification]
#[verifier::external_body]
pub struct ExVersion(Version);

/// `semver::SemVerError`: why a text is no version, carried through as it
/// is.
#[verifier::external_type_specification]
#[verifier::external_body]
pub struct ExSemVerError(SemVerError);

/// The version that a text denotes under semantic versioning; `None` where
/// the text denotes none.
pub uninterp spec fn version_in(text: Seq<char>) -> Option<Version>;

/// Whether the first version takes precedence over the second under
/// semantic versioning.
pub uninterp spec fn takes_precedence(first: Version, second: Version) -> bool;

/// `semver::Version::parse`: the version that the text denotes, or why it
/// denotes none.
#[verifier::external_body]
fn parse_version(text: &str) -> (r: Result<Version, SemVerError>)
    ensures
        match r {
            Ok(v) => version_in(text@) == Some(v),
            Err(_) => version_in(text@) is None,
        },
{
    Version::parse(text)
}

/// `>` on `semver::Version`: whether the first takes precedence over the
/// second.
#[verifier::external_body]
fn is_newer(first: &Version, second: &Version) -> (r: bool)
    ensures
        r == takes_precedence(*first, *second),
{
    first > second
}

/// The validator of the `minimum-wark` setting.
#[derive(Clone, Copy, Debug, Default)]
pub struct MinimumVersion;

/// What the validator finds.
#[derive(Debug)]
pub enum Finding {
    /// The tool is recent enough.
    Accepted,
    /// The configuration asks for a newer tool.
    UpgradeNeeded,
    /// The setting is no version.
    Invalid(SemVerError),
}

impl MinimumVersion {
    /// Holds the tool's own version against the least version that the
    /// configuration asks for.
    pub fn validate(&self, minimum: &str, current: &Version) -> (r: Finding)
        ensures
            match version_in(minimum@) {
                None => r is Invalid,
                Some(v) => if takes_precedence(v, *current) {
                    r is UpgradeNeeded
                } else {
                    r is Accepted
                },
            },
    {
        match parse_version(minimum) {
            Ok(version) => if is_newer(&version, current) {
                Finding::UpgradeNeeded
            } else {
                Finding::Accepted
            },
            Err(e) => Finding::Invalid(e),
        }
    }
}

} // verus!
