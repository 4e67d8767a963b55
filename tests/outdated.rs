use flightcore::index::{Package, PackageVersion};
use flightcore::outdated::{check_is_northstar_outdated, effective_package_name, CheckError};

fn index_with_latest(latest: &str) -> Vec<Package> {
    vec![Package {
        name: "Northstar".to_string(),
        latest: latest.to_string(),
        versions: vec![PackageVersion {
            version: latest.to_string(),
            url: "https://example.invalid/ns.zip".to_string(),
            file_size: 1,
        }],
    }]
}

#[test]
fn placeholder_package_names_default_to_northstar() {
    assert_eq!(effective_package_name(None), "Northstar");
    assert_eq!(effective_package_name(Some("".to_string())), "Northstar");
    assert_eq!(effective_package_name(Some("x".to_string())), "Northstar");
    assert_eq!(effective_package_name(Some("NorthstarReleaseCandidate".to_string())), "NorthstarReleaseCandidate");
}

#[test]
fn outdated_check_results() {
    let index = index_with_latest("1.20.1");
    assert!(matches!(check_is_northstar_outdated(Ok("1.20.1".to_string()), &index, None), Ok(false)));
    assert!(matches!(check_is_northstar_outdated(Ok("1.20.0".to_string()), &index, Some("".to_string())), Ok(true)));
    assert!(matches!(check_is_northstar_outdated(Ok("1.20.1".to_string()), &index, Some("Other".to_string())), Err(CheckError::PackageNotFound)));
    match check_is_northstar_outdated(Err("no manifest".to_string()), &index, None) {
        Err(CheckError::ManifestUnreadable(e)) => assert_eq!(e, "no manifest"),
        other => panic!("unexpected {other:?}"),
    }
    assert!(matches!(check_is_northstar_outdated(Ok("garbage".to_string()), &index, None), Err(CheckError::MalformedVersion)));
}

#[test]
fn outdated_check_normalises_release_candidates() {
    let index = index_with_latest("1.9.201");
    assert!(matches!(check_is_northstar_outdated(Ok("1.9.2-rc1".to_string()), &index, None), Ok(false)));
}
