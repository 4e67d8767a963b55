use flightcore::convert_release_candidate_number;
use flightcore::version::{is_outdated, MalformedVersion};

#[test]
fn release_candidates_below_ten_map_to_dotted_suffix() {
    for n in 1..=9 {
        let out = convert_release_candidate_number(format!("v1.9.2-rc{n}"));
        assert_eq!(out, format!("v1.9.20{n}"));
    }
}

#[test]
fn release_candidates_from_ten_keep_the_known_quirk() {
    assert_eq!(convert_release_candidate_number("v1.9.2-rc11".to_string()), "v1.9.2011");
    assert_eq!(convert_release_candidate_number("v1.9.2-rc10".to_string()), "v1.9.2010");
}

#[test]
fn normalize_without_marker_is_idempotent() {
    for v in ["1.10.0", "v1.9.2", "1.100.0", "1.0000.3", "abc", ""] {
        let once = convert_release_candidate_number(v.to_string());
        let twice = convert_release_candidate_number(once.clone());
        assert_eq!(once, twice);
    }
    assert_eq!(convert_release_candidate_number("1.100.0".to_string()), "1.1.0");
}

#[test]
fn marker_joined_by_zero_removal_breaks_idempotence() {
    let once = convert_release_candidate_number("-r00c".to_string());
    assert_eq!(once, "-rc");
    assert_eq!(convert_release_candidate_number(once), "0");
}

#[test]
fn version_not_outdated_against_itself() {
    assert_eq!(is_outdated("1.12.3", "1.12.3"), Ok(false));
    assert_eq!(is_outdated("1.2.3-beta.1+build5", "1.2.3-beta.1+build5"), Ok(false));
}

#[test]
fn outdated_on_any_mismatch() {
    assert_eq!(is_outdated("1.12.3", "1.13.0"), Ok(true));
    assert_eq!(is_outdated("1.14.0", "1.13.0"), Ok(true));
    assert_eq!(is_outdated("1.2.3+a", "1.2.3+b"), Ok(true));
}

#[test]
fn installed_release_candidate_is_normalised_before_comparing() {
    assert_eq!(is_outdated("1.9.2-rc1", "1.9.201"), Ok(false));
    assert_eq!(is_outdated("1.9.2-rc1", "1.9.2-rc1"), Ok(true));
    assert_eq!(is_outdated("1.0.0-rc1", "1.0.1"), Ok(false));
}

#[test]
fn malformed_versions_are_rejected() {
    assert_eq!(is_outdated("v1.12.3", "1.12.3"), Err(MalformedVersion));
    assert_eq!(is_outdated("1.12.3", "latest"), Err(MalformedVersion));
    assert_eq!(is_outdated("", ""), Err(MalformedVersion));
}
