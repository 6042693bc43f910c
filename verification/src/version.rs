//! Version normalization: a release tag, with one leading `v` stripped,
//! validated against the package index's version grammar.

use std::str::FromStr;
use vstd::prelude::*;

use crate::strutil;

verus! {

/// Whether the package index's version grammar (the conda version
/// grammar of `rattler_conda_types::Version::from_str`) accepts `s`.
pub uninterp spec fn conda_version_valid(s: Seq<char>) -> bool;

/// A canonical form of a valid version string: two valid version strings
/// denote the same version exactly when their canonical forms are equal
/// (in the sense of `rattler_conda_types::Version`'s equality).
pub uninterp spec fn conda_canon(s: Seq<char>) -> Seq<char>;

/// Relies on `rattler_conda_types::Version::from_str`: whether a string
/// parses is a deterministic function of the string alone.
#[verifier::external_body]
fn parse_version_ok(s: &str) -> (r: bool)
    ensures
        r == conda_version_valid(s@),
{
    rattler_conda_types::Version::from_str(s).is_ok()
}

/// Relies on `rattler_conda_types::Version::from_str` and `Version::eq`:
/// parsing is deterministic, and version equality is an equivalence
/// relation on parsed versions (so it is decided by a canonical form of
/// the version string). Two strings compare equal exactly when both
/// parse and their parsed versions are equal.
#[verifier::external_body]
pub(crate) fn conda_versions_equal(a: &str, b: &str) -> (r: bool)
    ensures
        r == (conda_version_valid(a@) && conda_version_valid(b@) && conda_canon(a@) == conda_canon(
            b@,
        )),
{
    match (rattler_conda_types::Version::from_str(a), rattler_conda_types::Version::from_str(b)) {
        (Ok(va), Ok(vb)) => va == vb,
        _ => false,
    }
}

/// `tag` with one leading 'v' stripped.
pub open spec fn spec_strip_v(tag: Seq<char>) -> Seq<char> {
    if tag.len() > 0 && tag[0] == 'v' {
        tag.subrange(1, tag.len() as int)
    } else {
        tag
    }
}

/// The tag with one leading 'v' stripped, as a slice of the tag.
pub fn stripped_tag(tag: &str) -> (r: &str)
    ensures
        r@ == spec_strip_v(tag@),
{
    let len = tag.unicode_len();
    if len > 0 && tag.get_char(0) == 'v' {
        tag.substring_char(1, len)
    } else {
        tag
    }
}

/// A version string is acceptable when it begins with a digit and the
/// index's version grammar accepts it. The grammar alone also accepts a
/// purely textual tag (a code name), which is not a version number, so
/// the leading digit is required besides.
pub open spec fn spec_version_ok(s: Seq<char>) -> bool {
    &&& s.len() > 0
    &&& '0' <= s[0] <= '9'
    &&& conda_version_valid(s)
}

/// A release tag normalized into a version of the package index: the tag
/// with one leading 'v' stripped, beginning with a digit and accepted by
/// the index's version grammar. The string is kept for display;
/// comparisons go through the index's own version equality.
pub struct NormalizedVersion {
    source: String,
}

impl NormalizedVersion {
    /// The normalized version string.
    pub closed spec fn version_str(self) -> Seq<char> {
        self.source@
    }

    /// Every normalized version is an acceptable index version.
    pub open spec fn wf(self) -> bool {
        spec_version_ok(self.version_str())
    }

    /// Normalize a release tag: strip one leading 'v', then validate.
    /// Returns `None` exactly when the stripped tag is not an acceptable
    /// version.
    pub fn normalize_tag(tag: &str) -> (r: Option<NormalizedVersion>)
        ensures
            r is Some <==> spec_version_ok(spec_strip_v(tag@)),
            r matches Some(nv) ==> nv.version_str() == spec_strip_v(tag@) && nv.wf(),
    {
        let stripped = stripped_tag(tag);
        let len = stripped.unicode_len();
        if len == 0 {
            return None;
        }
        let c = stripped.get_char(0);
        if !('0' <= c && c <= '9') {
            return None;
        }
        if parse_version_ok(stripped) {
            Some(NormalizedVersion { source: stripped.to_owned() })
        } else {
            None
        }
    }

    /// The display form: the normalized version string itself.
    pub fn as_str(&self) -> (r: &str)
        ensures
            r@ == self.version_str(),
    {
        self.source.as_str()
    }

    /// Whether this version and `other` (a version string from the index
    /// snapshot) denote the same index version.
    pub fn same_version_as(&self, other: &str) -> (r: bool)
        ensures
            r == (conda_version_valid(self.version_str()) && conda_version_valid(other@)
                && conda_canon(self.version_str()) == conda_canon(other@)),
    {
        conda_versions_equal(self.source.as_str(), other)
    }
}

/// Round trip: re-normalizing the display string of a normalized version
/// yields the very same version string, and hence an equal version. An
/// acceptable version string begins with a digit, so re-normalization
/// strips nothing from it.
pub proof fn lemma_normalize_round_trip(tag: Seq<char>)
    requires
        spec_version_ok(spec_strip_v(tag)),
    ensures
        spec_strip_v(spec_strip_v(tag)) == spec_strip_v(tag),
        spec_version_ok(spec_strip_v(spec_strip_v(tag))),
        conda_canon(spec_strip_v(spec_strip_v(tag))) == conda_canon(spec_strip_v(tag)),
{
}

/// Candidate filter for release tags, applied before normalization: a
/// tag is considered only when it does not look like a pre-release
/// (no "prerelease", "alpha", "beta" and no '-' anywhere) and starts
/// with a digit, or with 'v' followed by a digit.
pub open spec fn spec_tag_is_candidate(tag: Seq<char>) -> bool {
    &&& !strutil::spec_contains(tag, "prerelease"@)
    &&& !strutil::spec_contains(tag, "alpha"@)
    &&& !strutil::spec_contains(tag, "beta"@)
    &&& !tag.contains('-')
    &&& {
        ||| (tag.len() >= 2 && tag[0] == 'v' && '0' <= tag[1] <= '9')
        ||| (tag.len() >= 1 && '0' <= tag[0] <= '9')
    }
}

pub fn tag_is_candidate(tag: &str) -> (r: bool)
    ensures
        r == spec_tag_is_candidate(tag@),
{
    if strutil::str_contains(tag, "prerelease") || strutil::str_contains(tag, "alpha")
        || strutil::str_contains(tag, "beta") || strutil::str_contains_char(tag, '-') {
        return false;
    }
    let len = tag.unicode_len();
    if len >= 2 && tag.get_char(0) == 'v' {
        let c = tag.get_char(1);
        if '0' <= c && c <= '9' {
            return true;
        }
    }
    if len >= 1 {
        let c = tag.get_char(0);
        if '0' <= c && c <= '9' {
            return true;
        }
    }
    false
}

} // verus!
