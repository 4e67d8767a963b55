//! Whether the installed Northstar is behind the package index.
use vstd::prelude::*;
use crate::index::{Package, names_match, find_package};
use crate::install::is_first_match;
use crate::version::{MalformedVersion, outdated_spec, is_outdated};

verus! {

/// Why the check could not decide. None of these means "up to date".
#[derive(Clone, Debug)]
pub enum CheckError {
    /// The package index could not be fetched.
    IndexUnavailable(String),
    /// No package of the index has the requested name.
    PackageNotFound,
    /// The installed version could not be read from the install's manifest.
    ManifestUnreadable(String),
    /// The installed or the latest version is not a semantic version.
    MalformedVersion,
}

/// The text of an optional string.
pub open spec fn opt_string_view(o: Option<String>) -> Option<Seq<char>> {
    match o {
        Some(s) => Some(s@),
        None => None,
    }
}

/// Name of the mod-loader package.
pub open spec fn default_package_name() -> Seq<char> {
    seq!['N', 'o', 'r', 't', 'h', 's', 't', 'a', 'r']
}

/// The package to check: the one given, unless it is missing or at most one
/// character long (a placeholder of the user interface).
pub open spec fn effective_name_spec(name: Option<Seq<char>>) -> Seq<char> {
    match name {
        Some(n) => if n.len() <= 1 {
            default_package_name()
        } else {
            n
        },
        None => default_package_name(),
    }
}

/// The package to check, with the mod loader as the default.
pub fn effective_package_name(name: Option<String>) -> (r: String)
    ensures
        r@ == effective_name_spec(opt_string_view(name)),
{
    proof {
        reveal_strlit("Northstar");
        assert("Northstar"@ =~= default_package_name());
    }
    match name {
        Some(n) => if n.as_str().unicode_len() <= 1 {
            String::from_str("Northstar")
        } else {
            n
        },
        None => String::from_str("Northstar"),
    }
}

/// Whether the installed version, normalised, differs from the latest version
/// of the package in the index. `installed` is what reading the manifest gave.
pub fn check_is_northstar_outdated(
    installed: Result<String, String>,
    index: &Vec<Package>,
    northstar_package_name: Option<String>,
) -> (r: Result<bool, CheckError>)
    ensures
        ({
            let name = effective_name_spec(opt_string_view(northstar_package_name));
            &&& (r matches Err(CheckError::PackageNotFound)) <==> forall|k: int|
                0 <= k < index@.len() ==> !#[trigger] names_match(index@, k, name)
            &&& forall|i: int| #[trigger]
                is_first_match(index@, name, i) ==> match installed {
                    Err(e) => r matches Err(CheckError::ManifestUnreadable(m)) && m@ == e@,
                    Ok(v) => match outdated_spec(v@, index@[i].latest@) {
                        Ok(b) => r == Ok::<bool, CheckError>(b),
                        Err(_) => r matches Err(CheckError::MalformedVersion),
                    },
                }
        }),
{
    let name = effective_package_name(northstar_package_name);
    let i = match find_package(index, name.as_str()) {
        Some(i) => i,
        None => return Err(CheckError::PackageNotFound),
    };
    proof {
        assert(names_match(index@, i as int, name@));
        assert forall|j: int| #[trigger] is_first_match(index@, name@, j) implies j == i by {
            if j > i {
                assert(names_match(index@, i as int, name@));
            }
        }
    }
    let v = match installed {
        Ok(v) => v,
        Err(e) => return Err(CheckError::ManifestUnreadable(e)),
    };
    match is_outdated(v.as_str(), index[i].latest.as_str()) {
        Ok(b) => Ok(b),
        Err(MalformedVersion) => Err(CheckError::MalformedVersion),
    }
}

} // verus!
