use octoconda::version::{tag_is_candidate, NormalizedVersion};

#[test]
fn tag_with_v_prefix_normalizes() {
    let nv = NormalizedVersion::normalize_tag("v1.2.3").unwrap();
    assert_eq!(nv.as_str(), "1.2.3");
}

#[test]
fn tag_without_prefix_normalizes() {
    let nv = NormalizedVersion::normalize_tag("0.9.8").unwrap();
    assert_eq!(nv.as_str(), "0.9.8");
}

#[test]
fn nightly_tag_does_not_normalize() {
    assert!(NormalizedVersion::normalize_tag("nightly").is_none());
}

#[test]
fn normalize_round_trip_yields_equal_version() {
    // the display string of a normalized version, re-normalized, is the
    // same version
    let nv = NormalizedVersion::normalize_tag("v1.2.3").unwrap();
    let again = NormalizedVersion::normalize_tag(nv.as_str()).unwrap();
    assert_eq!(nv.as_str(), again.as_str());
    assert!(nv.same_version_as(again.as_str()));
}

#[test]
fn version_equality_is_semantic_not_textual() {
    // the index's version grammar pads missing segments with zeros
    let nv = NormalizedVersion::normalize_tag("1.2.3").unwrap();
    assert!(nv.same_version_as("1.2.3.0"));
    assert!(!nv.same_version_as("1.2.4"));
    // an invalid snapshot version string is equal to nothing
    assert!(!nv.same_version_as("1..2"));
}

#[test]
fn same_version_as_sees_through_representations() {
    let nv = NormalizedVersion::normalize_tag("v1.2.3").unwrap();
    assert!(nv.same_version_as("1.2.3.0"));
    assert!(!nv.same_version_as("1.2.3.1"));
}

#[test]
fn candidate_tags_are_filtered() {
    assert!(tag_is_candidate("v1.2.3"));
    assert!(tag_is_candidate("1.0"));
    assert!(!tag_is_candidate("nightly"));
    assert!(!tag_is_candidate("v1.2.3-rc1"));
    assert!(!tag_is_candidate("v2.0.0.alpha"));
    assert!(!tag_is_candidate("prerelease-build"));
    assert!(!tag_is_candidate("ver1"));
    assert!(!tag_is_candidate(""));
    assert!(!tag_is_candidate("v"));
}
