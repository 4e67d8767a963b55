use flightcore::launch_args::{join_launch_arguments, parse_launch_arguments, str_lt};
use flightcore::{
    check_is_valid_game_path, find_game_install_location, linux_checks_librs, titanfall2_exe_path,
    InstallType,
};

#[test]
fn glibc_check() {
    assert!(linux_checks_librs(2, 33).is_ok());
    assert!(linux_checks_librs(2, 35).is_ok());
    assert!(linux_checks_librs(3, 0).is_ok());
    assert_eq!(linux_checks_librs(2, 31), Err("GLIBC is not version 2.33 or greater".to_string()));
    assert!(linux_checks_librs(2, 4).is_err());
    assert!(linux_checks_librs(1, 99).is_err());
}

#[test]
fn game_path_check() {
    assert_eq!(titanfall2_exe_path("/g/tf2"), "/g/tf2/Titanfall2.exe");
    assert_eq!(check_is_valid_game_path("/g/tf2", true), Ok(()));
    assert_eq!(
        check_is_valid_game_path("/g/tf2", false),
        Err("Incorrect game path \"/g/tf2\"".to_string())
    );
}

#[test]
fn install_location_prefers_steam() {
    let g = find_game_install_location(Some("/steam/tf2".to_string()), Some("C:/o".to_string())).unwrap();
    assert_eq!(g.game_path, "/steam/tf2");
    assert_eq!(g.install_type, InstallType::STEAM);
    let g = find_game_install_location(None, Some("C:/o".to_string())).unwrap();
    assert_eq!(g.install_type, InstallType::ORIGIN);
    assert!(find_game_install_location(None, None).is_err());
}

#[test]
fn launch_arguments_join() {
    let args = vec!["-multiple".to_string(), "+setplaylist".to_string(), "private_match".to_string()];
    assert_eq!(join_launch_arguments(&args), "-multiple +setplaylist private_match");
    assert_eq!(join_launch_arguments(&vec![]), "");
    assert_eq!(join_launch_arguments(&vec!["one".to_string()]), "one");
}

#[test]
fn launch_arguments_parse_sorted_without_duplicates() {
    let got = parse_launch_arguments("  -multiple\t+setplaylist  -multiple\nprivate_match -dev ");
    assert_eq!(got, vec!["+setplaylist", "-dev", "-multiple", "private_match"]);
    assert!(parse_launch_arguments("").is_empty());
    assert!(parse_launch_arguments(" \u{3000}\u{a0} ").is_empty());
    assert_eq!(parse_launch_arguments("b\u{2003}a"), vec!["a", "b"]);
    assert_eq!(parse_launch_arguments("x"), vec!["x"]);
}

#[test]
fn string_order() {
    assert!(str_lt("a", "b"));
    assert!(str_lt("ab", "abc"));
    assert!(!str_lt("abc", "ab"));
    assert!(!str_lt("same", "same"));
    assert!(str_lt("", "a"));
    assert!(str_lt("Z", "a"));
}
