//! Deciding whether a published release is newer than the running version.
use vstd::prelude::*;

verus! {

/// A published release: its title, its tag (a version with a one-character
/// prefix such as `v1.2.0`) and its page.
pub struct Release {
    pub name: String,
    pub tag_name: String,
    pub html_url: String,
}

/// Whether `version-compare` ranks `candidate` strictly above `current`;
/// `None` when either does not parse as a version.
pub uninterp spec fn version_gt(candidate: Seq<char>, current: Seq<char>) -> Option<bool>;

/// Relies on `version_compare::compare_to` with `Cmp::Gt`: `Ok(b)` when both
/// strings parse as versions, `Err(())` otherwise. The outcome depends on the two
/// strings alone.
#[verifier::external_body]
fn compare_versions(candidate: &str, current: &str) -> (r: Option<bool>)
    ensures
        r == version_gt(candidate@, current@),
{
    version_compare::compare_to(candidate, current, version_compare::Cmp::Gt).ok()
}

/// Keeps `release` exactly when the comparison of its version with the running
/// one came out as "newer".
pub fn release_if_newer(release: Release, comparison: Option<bool>) -> (r: Option<Release>)
    ensures
        r == (if comparison == Some(true) { Some(release) } else { None }),
{
    match comparison {
        Some(true) => Some(release),
        _ => None,
    }
}

/// The version carried by a tag: the tag without its first character.
pub open spec fn tag_version(tag: Seq<char>) -> Seq<char> {
    tag.skip(1)
}

/// Keeps `release` exactly when its tag is not empty and the version after the
/// tag's first character is newer than `current`.
pub fn check_release(release: Release, current: &str) -> (r: Option<Release>)
    ensures
        r == (if release.tag_name@.len() > 0 && version_gt(tag_version(release.tag_name@), current@)
            == Some(true) {
            Some(release)
        } else {
            None
        }),
{
    let n = release.tag_name.as_str().unicode_len();
    if n == 0 {
        return None;
    }
    let comparison = {
        let version = release.tag_name.as_str().substring_char(1, n);
        assert(version@ == tag_version(release.tag_name@));
        compare_versions(version, current)
    };
    release_if_newer(release, comparison)
}

} // verus!
