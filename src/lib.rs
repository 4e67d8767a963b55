//! Install, update-detection and launch orchestration for the Northstar mod
//! loader. Every decision is made by verified functions on plain values; the
//! caller performs file-system, network and process work and reports back.
use vstd::prelude::*;

pub mod deploy;
pub mod index;
pub mod install;
pub mod launch;
pub mod launch_args;
pub mod outdated;
pub mod progress;
pub mod version;

pub use version::convert_release_candidate_number;
pub use install::install_northstar;

verus! {

/// How the game was installed.
#[derive(Clone, Copy, Debug, PartialEq, Eq, Structural)]
pub enum InstallType {
    STEAM,
    ORIGIN,
    EAPLAY,
    UNKNOWN,
}

/// A resolved game installation: its root directory and its channel.
#[derive(Clone, Debug)]
pub struct GameInstall {
    pub game_path: String,
    pub install_type: InstallType,
}

/// Various information about a Northstar mod.
#[derive(Clone, Debug)]
pub struct NorthstarMod {
    pub name: String,
    pub version: Option<String>,
    pub thunderstore_mod_string: Option<String>,
    pub enabled: bool,
    pub directory: String,
}

/// Player count reported by a Northstar server.
#[derive(Clone, Copy, Debug, PartialEq, Eq, Structural)]
pub struct NorthstarServer {
    pub player_count: i32,
}

/// Phase of an install, as reported to the presentation layer.
#[derive(Clone, Copy, Debug, PartialEq, Eq, Structural)]
pub enum InstallState {
    DOWNLOADING,
    EXTRACTING,
    DONE,
}

/// A progress event: bytes downloaded so far, total bytes (0 while unknown),
/// and the phase of the install.
#[derive(Clone, Copy, Debug, PartialEq, Eq, Structural)]
pub struct InstallProgress {
    pub current_downloaded: u64,
    pub total_size: u64,
    pub state: InstallState,
}

/// Oldest glibc, as (major, minor), that NorthstarProton runs on.
pub const MIN_GLIBC_MAJOR: u64 = 2;
pub const MIN_GLIBC_MINOR: u64 = 33;

/// Linux compatibility checks, given the glibc version that `ldd --version`
/// reported: it must be 2.33 or later.
pub fn linux_checks_librs(glibc_major: u64, glibc_minor: u64) -> (r: Result<(), String>)
    ensures
        r is Ok <==> (glibc_major > MIN_GLIBC_MAJOR || (glibc_major == MIN_GLIBC_MAJOR
            && glibc_minor >= MIN_GLIBC_MINOR)),
        r matches Err(e) ==> e@ == "GLIBC is not version 2.33 or greater"@,
{
    if glibc_major < MIN_GLIBC_MAJOR || (glibc_major == MIN_GLIBC_MAJOR && glibc_minor
        < MIN_GLIBC_MINOR) {
        return Err(String::from_str("GLIBC is not version 2.33 or greater"));
    }
    Ok(())
}

pub open spec fn exe_path_spec(game_install_path: Seq<char>) -> Seq<char> {
    game_install_path + "/Titanfall2.exe"@
}

/// The path of the game's executable under an install root.
pub fn titanfall2_exe_path(game_install_path: &str) -> (r: String)
    ensures
        r@ == exe_path_spec(game_install_path@),
{
    String::from_str(game_install_path).concat("/Titanfall2.exe")
}

/// Whether `game_install_path` is a game install, given whether the file at
/// `titanfall2_exe_path(game_install_path)` exists.
pub fn check_is_valid_game_path(game_install_path: &str, exe_exists: bool) -> (r: Result<(), String>)
    ensures
        r is Ok <==> exe_exists,
        r matches Err(e) ==> e@ == "Incorrect game path \""@ + game_install_path@ + "\""@,
{
    if !exe_exists {
        return Err(String::from_str("Incorrect game path \"").concat(game_install_path).concat("\""));
    }
    Ok(())
}

/// The install that was found: a Steam library entry first, else the Origin
/// registry entry, each given as the install root it names.
pub fn find_game_install_location(steam_path: Option<String>, origin_path: Option<String>) -> (r: Result<GameInstall, String>)
    ensures
        steam_path matches Some(p) ==> r matches Ok(g) && g.game_path@ == p@ && g.install_type == InstallType::STEAM,
        steam_path is None ==> (origin_path matches Some(p) ==> r matches Ok(g) && g.game_path@ == p@ && g.install_type == InstallType::ORIGIN),
        steam_path is None && origin_path is None ==> r is Err,
{
    match steam_path {
        Some(p) => Ok(GameInstall { game_path: p, install_type: InstallType::STEAM }),
        None => match origin_path {
            Some(p) => Ok(GameInstall { game_path: p, install_type: InstallType::ORIGIN }),
            None => Err(String::from_str("Could not auto-detect game install location! Please enter it manually.")),
        },
    }
}

} // verus!
