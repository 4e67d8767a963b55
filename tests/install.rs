use flightcore::index::{find_package, find_version, position_of, Package, PackageVersion};
use flightcore::install::{
    archive_path, classify_install_failure, contains, install_northstar, is_restricted_path,
    scratch_dir, InstallError, InstallStep, StepFailure,
};
use flightcore::{InstallProgress, InstallState};

fn sample_index() -> Vec<Package> {
    vec![
        Package {
            name: "SomeMod".to_string(),
            latest: "1.0.0".to_string(),
            versions: vec![PackageVersion {
                version: "1.0.0".to_string(),
                url: "https://example.invalid/somemod-1.0.0.zip".to_string(),
                file_size: 10,
            }],
        },
        Package {
            name: "Northstar".to_string(),
            latest: "1.20.0".to_string(),
            versions: vec![
                PackageVersion {
                    version: "1.19.0".to_string(),
                    url: "https://example.invalid/ns-1.19.0.zip".to_string(),
                    file_size: 100,
                },
                PackageVersion {
                    version: "1.20.0".to_string(),
                    url: "https://example.invalid/ns-1.20.0.zip".to_string(),
                    file_size: 120,
                },
            ],
        },
    ]
}

#[test]
fn package_lookup_ignores_case() {
    let index = sample_index();
    assert_eq!(find_package(&index, "northstar"), Some(1));
    assert_eq!(find_package(&index, "NORTHSTAR"), Some(1));
    assert_eq!(find_package(&index, "Nothing"), None);
    assert_eq!(find_version(&index[1], "1.19.0"), Some(0));
    assert_eq!(find_version(&index[1], "1.18.0"), None);
    let names = vec!["a".to_string(), "b".to_string(), "b".to_string()];
    assert_eq!(position_of(&names, "b"), Some(1));
}

#[test]
fn install_defaults_to_latest_version() {
    let index = sample_index();
    let job = install_northstar(&index, "/games/tf2", "northstar", None).unwrap();
    assert_eq!(job.version, "1.20.0");
    assert_eq!(job.steps.len(), 6);
    match &job.steps[0] {
        InstallStep::CreateScratchDir { dir } => {
            assert_eq!(dir, "/games/tf2/___flightcore-temp-download-dir/")
        }
        other => panic!("unexpected first step {other:?}"),
    }
    match &job.steps[1] {
        InstallStep::Download { url, dest } => {
            assert_eq!(url, "https://example.invalid/ns-1.20.0.zip");
            assert_eq!(dest, "/games/tf2/___flightcore-temp-download-dir//northstar-1.20.0.zip");
        }
        other => panic!("unexpected second step {other:?}"),
    }
    match &job.steps[2] {
        InstallStep::Report(p) => assert_eq!(
            *p,
            InstallProgress { current_downloaded: 0, total_size: 0, state: InstallState::EXTRACTING }
        ),
        other => panic!("unexpected third step {other:?}"),
    }
    match &job.steps[3] {
        InstallStep::Extract { archive, target } => {
            assert_eq!(archive, "/games/tf2/___flightcore-temp-download-dir//northstar-1.20.0.zip");
            assert_eq!(target, "/games/tf2");
        }
        other => panic!("unexpected fourth step {other:?}"),
    }
    match &job.steps[4] {
        InstallStep::RemoveScratchDir { dir } => {
            assert_eq!(dir, "/games/tf2/___flightcore-temp-download-dir/")
        }
        other => panic!("unexpected fifth step {other:?}"),
    }
    match &job.steps[5] {
        InstallStep::Report(p) => assert_eq!(p.state, InstallState::DONE),
        other => panic!("unexpected last step {other:?}"),
    }
}

#[test]
fn install_requested_version() {
    let index = sample_index();
    let job = install_northstar(&index, "/g", "Northstar", Some("1.19.0".to_string())).unwrap();
    assert_eq!(job.version, "1.19.0");
    match &job.steps[1] {
        InstallStep::Download { url, .. } => assert_eq!(url, "https://example.invalid/ns-1.19.0.zip"),
        other => panic!("unexpected second step {other:?}"),
    }
}

#[test]
fn install_errors() {
    let index = sample_index();
    assert!(matches!(
        install_northstar(&index, "/g", "Missing", None),
        Err(InstallError::PackageNotFound)
    ));
    assert!(matches!(
        install_northstar(&index, "/g", "Northstar", Some("9.9.9".to_string())),
        Err(InstallError::VersionNotFound)
    ));
}

#[test]
fn paths_of_the_scratch_area() {
    assert_eq!(scratch_dir("/x"), "/x/___flightcore-temp-download-dir/");
    assert_eq!(archive_path("/x", "1.2.3"), "/x/___flightcore-temp-download-dir//northstar-1.2.3.zip");
}

#[test]
fn restricted_path_failure_is_reported_distinctly() {
    let path = r"C:\Program Files\EA Games\Titanfall2";
    assert!(is_restricted_path(path));
    assert!(is_restricted_path(r"c:\program files\EA Games\Titanfall2"));
    assert!(matches!(
        classify_install_failure(path, StepFailure::Extract("permission denied".to_string())),
        InstallError::RestrictedPath
    ));
    assert!(matches!(
        classify_install_failure(path, StepFailure::Download("permission denied".to_string())),
        InstallError::RestrictedPath
    ));
}

#[test]
fn other_failures_keep_their_cause() {
    let path = r"D:\Games\Titanfall2";
    assert!(!is_restricted_path(path));
    match classify_install_failure(path, StepFailure::Extract("disk full".to_string())) {
        InstallError::Io(e) => assert_eq!(e, "disk full"),
        other => panic!("unexpected {other:?}"),
    }
    match classify_install_failure(path, StepFailure::Download("timeout".to_string())) {
        InstallError::Network(e) => assert_eq!(e, "timeout"),
        other => panic!("unexpected {other:?}"),
    }
    match classify_install_failure(path, StepFailure::CorruptArchive("bad".to_string())) {
        InstallError::Archive(e) => assert_eq!(e, "bad"),
        other => panic!("unexpected {other:?}"),
    }
    match classify_install_failure(r"C:\Program Files\X", StepFailure::Cleanup("busy".to_string())) {
        InstallError::Io(e) => assert_eq!(e, "busy"),
        other => panic!("unexpected {other:?}"),
    }
}

#[test]
fn substring_search() {
    assert!(contains("abcabd", "abd"));
    assert!(contains("abc", ""));
    assert!(!contains("ab", "abc"));
    assert!(!contains("abcab", "abd"));
}
