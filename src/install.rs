//! The install pipeline: resolving a package version, the ordered steps that
//! install it, and the error that a failed step is reported as.
use vstd::prelude::*;
use crate::index::{Package, PackageVersion, lower_of, names_match, find_package, find_version};
use crate::{InstallProgress, InstallState};

verus! {

/// One step of an install, performed by the caller in order.
#[derive(Clone, Debug)]
pub enum InstallStep {
    /// Create the scratch directory and its parents.
    CreateScratchDir { dir: String },
    /// Stream the archive at `url` into `dest`, reporting throttled progress.
    Download { url: String, dest: String },
    /// Emit this progress event.
    Report(InstallProgress),
    /// Deploy the archive at `archive` onto `target`.
    Extract { archive: String, target: String },
    /// Delete the scratch directory and everything in it.
    RemoveScratchDir { dir: String },
}

/// A resolved install: the version that it installs and its steps.
#[derive(Clone, Debug)]
pub struct InstallJob {
    pub version: String,
    pub steps: Vec<InstallStep>,
}

/// How a step of the pipeline failed, as the caller observed it.
#[derive(Clone, Debug)]
pub enum StepFailure {
    /// The scratch directory could not be created.
    CreateDir(String),
    /// The download failed.
    Download(String),
    /// The archive is corrupt or unreadable.
    CorruptArchive(String),
    /// Writing the deployed files failed.
    Extract(String),
    /// The scratch directory could not be removed.
    Cleanup(String),
}

/// Why an install failed.
#[derive(Clone, Debug)]
pub enum InstallError {
    /// No package of the index has the requested name.
    PackageNotFound,
    /// The package has no version of the requested number.
    VersionNotFound,
    /// The install root is the default vendor path, which is not writable.
    RestrictedPath,
    /// The package archive is corrupt or unreadable.
    Archive(String),
    /// The network failed.
    Network(String),
    /// Another file-system failure.
    Io(String),
}

pub open spec fn scratch_dir_spec(game_path: Seq<char>) -> Seq<char> {
    game_path + "/___flightcore-temp-download-dir/"@
}

pub open spec fn archive_path_spec(game_path: Seq<char>, version: Seq<char>) -> Seq<char> {
    scratch_dir_spec(game_path) + "/northstar-"@ + version + ".zip"@
}

/// The scratch directory under the install root.
pub fn scratch_dir(game_path: &str) -> (r: String)
    ensures
        r@ == scratch_dir_spec(game_path@),
{
    String::from_str(game_path).concat("/___flightcore-temp-download-dir/")
}

/// Where the archive of `version` is downloaded to.
pub fn archive_path(game_path: &str, version: &str) -> (r: String)
    ensures
        r@ == archive_path_spec(game_path@, version@),
{
    scratch_dir(game_path).concat("/northstar-").concat(version).concat(".zip")
}

/// The steps that install `v` into `game_path`, in this order.
pub open spec fn plan_matches(steps: Seq<InstallStep>, game_path: Seq<char>, v: PackageVersion) -> bool {
    &&& steps.len() == 6
    &&& steps[0] matches InstallStep::CreateScratchDir { dir } && dir@ == scratch_dir_spec(game_path)
    &&& steps[1] matches InstallStep::Download { url, dest } && url@ == v.url@ && dest@
        == archive_path_spec(game_path, v.version@)
    &&& steps[2] == InstallStep::Report(
        InstallProgress { current_downloaded: 0, total_size: 0, state: InstallState::EXTRACTING },
    )
    &&& steps[3] matches InstallStep::Extract { archive, target } && archive@ == archive_path_spec(
        game_path,
        v.version@,
    ) && target@ == game_path
    &&& steps[4] matches InstallStep::RemoveScratchDir { dir } && dir@ == scratch_dir_spec(game_path)
    &&& steps[5] == InstallStep::Report(
        InstallProgress { current_downloaded: 0, total_size: 0, state: InstallState::DONE },
    )
}

/// The steps that install `v` into `game_path`.
pub fn install_steps(game_path: &str, v: &PackageVersion) -> (r: Vec<InstallStep>)
    ensures
        plan_matches(r@, game_path@, *v),
{
    let mut r: Vec<InstallStep> = Vec::new();
    r.push(InstallStep::CreateScratchDir { dir: scratch_dir(game_path) });
    r.push(
        InstallStep::Download {
            url: v.url.clone(),
            dest: archive_path(game_path, v.version.as_str()),
        },
    );
    r.push(
        InstallStep::Report(
            InstallProgress { current_downloaded: 0, total_size: 0, state: InstallState::EXTRACTING },
        ),
    );
    r.push(
        InstallStep::Extract {
            archive: archive_path(game_path, v.version.as_str()),
            target: String::from_str(game_path),
        },
    );
    r.push(InstallStep::RemoveScratchDir { dir: scratch_dir(game_path) });
    r.push(
        InstallStep::Report(
            InstallProgress { current_downloaded: 0, total_size: 0, state: InstallState::DONE },
        ),
    );
    r
}

/// `i` is the first package of the index whose name matches `name`.
pub open spec fn is_first_match(index: Seq<Package>, name: Seq<char>, i: int) -> bool {
    0 <= i < index.len() && names_match(index, i, name) && forall|k: int|
        0 <= k < i ==> !#[trigger] names_match(index, k, name)
}

/// The version to install: the one requested, else the package's latest.
pub open spec fn wanted_version(p: Package, requested: Option<String>) -> Seq<char> {
    match requested {
        Some(v) => v@,
        None => p.latest@,
    }
}

/// Resolves `package_name` case-insensitively in the index and the requested
/// version (or the latest) in that package, and returns the version to install
/// with the steps that install it into `game_path`.
pub fn install_northstar(
    index: &Vec<Package>,
    game_path: &str,
    package_name: &str,
    version_number: Option<String>,
) -> (r: Result<InstallJob, InstallError>)
    ensures
        (r matches Err(InstallError::PackageNotFound)) <==> forall|k: int|
            0 <= k < index@.len() ==> !#[trigger] names_match(index@, k, package_name@),
        forall|i: int|
            #[trigger] is_first_match(index@, package_name@, i) ==> {
                let p = index@[i];
                let want = wanted_version(p, version_number);
                &&& (r matches Err(InstallError::VersionNotFound)) <==> forall|j: int|
                    0 <= j < p.versions@.len() ==> #[trigger] p.versions@[j].version@ != want
                &&& (r is Ok || (r matches Err(InstallError::VersionNotFound)))
                &&& (r matches Ok(job) ==> job.version@ == want && exists|j: int|
                    0 <= j < p.versions@.len() && #[trigger] p.versions@[j].version@ == want
                        && plan_matches(job.steps@, game_path@, p.versions@[j]))
            },
{
    let i = match find_package(index, package_name) {
        Some(i) => i,
        None => return Err(InstallError::PackageNotFound),
    };
    let p = &index[i];
    assert(is_first_match(index@, package_name@, i as int));
    let want = match version_number {
        Some(v) => v,
        None => p.latest.clone(),
    };
    let j = match find_version(p, want.as_str()) {
        Some(j) => j,
        None => return Err(InstallError::VersionNotFound),
    };
    let steps = install_steps(game_path, &p.versions[j]);
    assert(p.versions@[j as int].version@ == want@);
    Ok(InstallJob { version: want, steps })
}

/// `pat` occurs in `s` starting at index `i`.
pub open spec fn occurs_at(s: Seq<char>, pat: Seq<char>, i: int) -> bool {
    0 <= i && i + pat.len() <= s.len() && s.subrange(i, i + pat.len()) == pat
}

/// `pat` occurs in `s`.
pub open spec fn contains_spec(s: Seq<char>, pat: Seq<char>) -> bool {
    exists|i: int| occurs_at(s, pat, i)
}

/// Whether `pat` occurs in `s`.
pub fn contains(s: &str, pat: &str) -> (r: bool)
    ensures
        r == contains_spec(s@, pat@),
{
    let n = s.unicode_len();
    let m = pat.unicode_len();
    if m > n {
        return false;
    }
    let mut i: usize = 0;
    while i <= n - m
        invariant
            n == s@.len(),
            m == pat@.len(),
            m <= n,
            i <= n - m + 1,
            forall|k: int| 0 <= k < i ==> !occurs_at(s@, pat@, k),
        decreases n - m + 1 - i,
    {
        let mut j: usize = 0;
        let mut ok = true;
        while j < m && ok
            invariant
                n == s@.len(),
                m == pat@.len(),
                i + m <= n,
                j <= m,
                ok == forall|k: int| 0 <= k < j ==> #[trigger] s@[i + k] == pat@[k],
                !ok ==> j > 0 && s@[i + j - 1] != pat@[j - 1],
            decreases m - j,
        {
            if s.get_char(i + j) != pat.get_char(j) {
                ok = false;
            }
            j = j + 1;
        }
        if ok {
            assert forall|k: int| 0 <= k < m implies s@.subrange(i as int, i + m)[k] == pat@[k] by {
                assert(s@[i + k] == pat@[k]);
            }
            assert(s@.subrange(i as int, i + m) =~= pat@);
            assert(occurs_at(s@, pat@, i as int));
            return true;
        }
        assert(!(s@[i + j - 1] == pat@[j - 1]));
        assert(s@.subrange(i as int, i + m)[j - 1] == s@[i + j - 1]);
        i = i + 1;
    }
    false
}

/// The default vendor install path, which users cannot write to.
pub open spec fn restricted_marker() -> Seq<char> {
    "C:\\Program Files\\"@
}

/// `game_path` lies under the default vendor install path, compared after
/// lower-casing both.
pub open spec fn is_restricted_spec(game_path: Seq<char>) -> bool {
    contains_spec(lower_of(game_path), lower_of(restricted_marker()))
}

/// What a failed step is reported as.
pub open spec fn failure_spec(restricted: bool, failure: StepFailure) -> InstallError {
    match failure {
        StepFailure::Download(e) => if restricted {
            InstallError::RestrictedPath
        } else {
            InstallError::Network(e)
        },
        StepFailure::CorruptArchive(e) => if restricted {
            InstallError::RestrictedPath
        } else {
            InstallError::Archive(e)
        },
        StepFailure::Extract(e) => if restricted {
            InstallError::RestrictedPath
        } else {
            InstallError::Io(e)
        },
        StepFailure::CreateDir(e) => InstallError::Io(e),
        StepFailure::Cleanup(e) => InstallError::Io(e),
    }
}

/// Whether `game_path` lies under the default vendor install path, ignoring case.
pub fn is_restricted_path(game_path: &str) -> (r: bool)
    ensures
        r == is_restricted_spec(game_path@),
{
    let lowered = crate::index::lowercase(game_path);
    let marker = crate::index::lowercase("C:\\Program Files\\");
    contains(lowered.as_str(), marker.as_str())
}

/// The error that the install reports for a failed step: a failed download or
/// deploy into the default vendor install path becomes `RestrictedPath`.
pub fn classify_install_failure(game_path: &str, failure: StepFailure) -> (r: InstallError)
    ensures
        r == failure_spec(is_restricted_spec(game_path@), failure),
{
    let restricted = is_restricted_path(game_path);
    match failure {
        StepFailure::Download(e) => if restricted {
            InstallError::RestrictedPath
        } else {
            InstallError::Network(e)
        },
        StepFailure::CorruptArchive(e) => if restricted {
            InstallError::RestrictedPath
        } else {
            InstallError::Archive(e)
        },
        StepFailure::Extract(e) => if restricted {
            InstallError::RestrictedPath
        } else {
            InstallError::Io(e)
        },
        StepFailure::CreateDir(e) => InstallError::Io(e),
        StepFailure::Cleanup(e) => InstallError::Io(e),
    }
}

} // verus!
