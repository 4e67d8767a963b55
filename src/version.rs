//! Normalisation of release-candidate version strings and comparison of
//! semantic versions.
use vstd::prelude::*;

verus! {

/// `s` holds the release-candidate marker `-rc` starting at index `i`.
pub open spec fn marker_at(s: Seq<char>, i: int) -> bool {
    0 <= i && i + 3 <= s.len() && s[i] == '-' && s[i + 1] == 'r' && s[i + 2] == 'c'
}

/// `s` holds no release-candidate marker.
pub open spec fn no_marker(s: Seq<char>) -> bool {
    forall|i: int| !#[trigger] marker_at(s, i)
}

/// `s` holds a zero digit directly followed by another at index `i`.
pub open spec fn double_zero_at(s: Seq<char>, i: int) -> bool {
    0 <= i && i + 2 <= s.len() && s[i] == '0' && s[i + 1] == '0'
}

/// `s` holds no two consecutive zero digits.
pub open spec fn no_double_zero(s: Seq<char>) -> bool {
    forall|i: int| !#[trigger] double_zero_at(s, i)
}

/// Every `-rc` replaced by `0`, scanning left to right without overlap.
pub open spec fn replace_marker(s: Seq<char>) -> Seq<char>
    decreases s.len(),
{
    if s.len() == 0 {
        s
    } else if marker_at(s, 0) {
        seq!['0'] + replace_marker(s.skip(3))
    } else {
        seq![s[0]] + replace_marker(s.skip(1))
    }
}

/// Every `00` removed, scanning left to right without overlap.
pub open spec fn drop_double_zero(s: Seq<char>) -> Seq<char>
    decreases s.len(),
{
    if s.len() == 0 {
        s
    } else if double_zero_at(s, 0) {
        drop_double_zero(s.skip(2))
    } else {
        seq![s[0]] + drop_double_zero(s.skip(1))
    }
}

/// The package index's spelling of an installed version: `-rc` becomes `0`,
/// then every `00` is removed. Correct for release candidates 1 to 9 only:
/// `v1.9.2-rc11` becomes `v1.9.2011`, which is not ordered as it should be.
pub open spec fn normalize(s: Seq<char>) -> Seq<char> {
    drop_double_zero(replace_marker(s))
}

/// Converts a release-candidate version number to the spelling that the
/// package index uses (`v1.9.2-rc1` to `v1.9.201`).
pub fn convert_release_candidate_number(version_number: String) -> (r: String)
    ensures
        r@ == normalize(version_number@),
{
    let replaced = replace_markers(version_number.as_str());
    drop_double_zeros(replaced.as_str())
}

fn replace_markers(s: &str) -> (r: String)
    ensures
        r@ == replace_marker(s@),
{
    let n = s.unicode_len();
    let mut out = String::new();
    let mut i: usize = 0;
    proof {
        reveal_strlit("0");
        assert(s@.subrange(0, n as int) =~= s@);
    }
    while i < n
        invariant
            n == s@.len(),
            i <= n,
            out@ + replace_marker(s@.subrange(i as int, n as int)) == replace_marker(s@),
        decreases n - i,
    {
        let rest = Ghost(s@.subrange(i as int, n as int));
        if n - i >= 3 && s.get_char(i) == '-' && s.get_char(i + 1) == 'r' && s.get_char(i + 2)
            == 'c' {
            assert(marker_at(rest@, 0));
            assert(rest@.skip(3) =~= s@.subrange(i + 3, n as int));
            proof {
                reveal_strlit("0");
            }
            assert("0"@ =~= seq!['0']);
            out.append("0");
            assert(out@ + replace_marker(s@.subrange(i + 3, n as int)) =~= replace_marker(s@));
            i = i + 3;
        } else {
            assert(!marker_at(rest@, 0));
            assert(rest@.skip(1) =~= s@.subrange(i + 1, n as int));
            out.append(s.substring_char(i, i + 1));
            assert(seq![rest@[0]] =~= s@.subrange(i as int, i + 1));
            assert(out@ + replace_marker(s@.subrange(i + 1, n as int)) =~= replace_marker(s@));
            i = i + 1;
        }
    }
    assert(out@ + replace_marker(s@.subrange(n as int, n as int)) =~= out@);
    out
}

fn drop_double_zeros(s: &str) -> (r: String)
    ensures
        r@ == drop_double_zero(s@),
{
    let n = s.unicode_len();
    let mut out = String::new();
    let mut i: usize = 0;
    proof {
        assert(s@.subrange(0, n as int) =~= s@);
    }
    while i < n
        invariant
            n == s@.len(),
            i <= n,
            out@ + drop_double_zero(s@.subrange(i as int, n as int)) == drop_double_zero(s@),
        decreases n - i,
    {
        let rest = Ghost(s@.subrange(i as int, n as int));
        if n - i >= 2 && s.get_char(i) == '0' && s.get_char(i + 1) == '0' {
            assert(double_zero_at(rest@, 0));
            assert(rest@.skip(2) =~= s@.subrange(i + 2, n as int));
            i = i + 2;
        } else {
            assert(!double_zero_at(rest@, 0));
            assert(rest@.skip(1) =~= s@.subrange(i + 1, n as int));
            out.append(s.substring_char(i, i + 1));
            assert(seq![rest@[0]] =~= s@.subrange(i as int, i + 1));
            assert(out@ + drop_double_zero(s@.subrange(i + 1, n as int)) =~= drop_double_zero(
                s@,
            ));
            i = i + 1;
        }
    }
    assert(out@ + drop_double_zero(s@.subrange(n as int, n as int)) =~= out@);
    out
}

/// A parsed semantic version: `major.minor.patch[-pre][+build]`.
#[derive(Clone, Debug)]
pub struct SemVer {
    pub major: u64,
    pub minor: u64,
    pub patch: u64,
    pub pre: String,
    pub build: String,
}

impl View for SemVer {
    type V = (u64, u64, u64, Seq<char>, Seq<char>);

    open spec fn view(&self) -> Self::V {
        (self.major, self.minor, self.patch, self.pre@, self.build@)
    }
}

/// The version that the semver grammar reads from `s`, or `None` where `s` is
/// not a semantic version: major, minor, patch, pre-release and build metadata.
pub uninterp spec fn semver_parse(s: Seq<char>) -> Option<(u64, u64, u64, Seq<char>, Seq<char>)>;

/// Relies on semver::Version::parse, with the pre-release and build metadata
/// read back as text through their `as_str`.
#[verifier::external_body]
fn parse_semver(s: &str) -> (r: Option<SemVer>)
    ensures
        match r {
            Some(v) => semver_parse(s@) == Some(v@),
            None => semver_parse(s@).is_none(),
        },
{
    match semver::Version::parse(s) {
        Ok(v) => Some(
            SemVer {
                major: v.major,
                minor: v.minor,
                patch: v.patch,
                pre: v.pre.as_str().to_string(),
                build: v.build.as_str().to_string(),
            },
        ),
        Err(_) => None,
    }
}

/// The installed version is not valid semantic versioning, or the latest one is not.
#[derive(Clone, Copy, Debug, PartialEq, Eq, Structural)]
pub struct MalformedVersion;

/// Whether `installed`, once normalised, names another semantic version than `latest`.
pub open spec fn outdated_spec(installed: Seq<char>, latest: Seq<char>) -> Result<bool, MalformedVersion> {
    match (semver_parse(normalize(installed)), semver_parse(latest)) {
        (Some(a), Some(b)) => Ok(a != b),
        _ => Err(MalformedVersion),
    }
}

/// Equality of parsed versions, field by field.
pub fn same_version(a: &SemVer, b: &SemVer) -> (r: bool)
    ensures
        r == (a@ == b@),
{
    a.major == b.major && a.minor == b.minor && a.patch == b.patch && a.pre == b.pre && a.build
        == b.build
}

/// True iff the installed version, normalised, differs from the latest one
/// (a newer local version counts as outdated too).
pub fn is_outdated(installed: &str, latest: &str) -> (r: Result<bool, MalformedVersion>)
    ensures
        r == outdated_spec(installed@, latest@),
{
    let normalized = convert_release_candidate_number(String::from_str(installed));
    let a = parse_semver(normalized.as_str());
    let b = parse_semver(latest);
    match (a, b) {
        (Some(a), Some(b)) => Ok(!same_version(&a, &b)),
        _ => Err(MalformedVersion),
    }
}

proof fn lemma_replace_marker_unchanged(s: Seq<char>)
    requires
        no_marker(s),
    ensures
        replace_marker(s) == s,
    decreases s.len(),
{
    if s.len() > 0 {
        assert(!marker_at(s, 0));
        assert forall|i: int| !#[trigger] marker_at(s.skip(1), i) by {
            assert(marker_at(s.skip(1), i) ==> marker_at(s, i + 1));
        }
        lemma_replace_marker_unchanged(s.skip(1));
        assert(seq![s[0]] + s.skip(1) =~= s);
    }
}

proof fn lemma_drop_double_zero_unchanged(s: Seq<char>)
    requires
        no_double_zero(s),
    ensures
        drop_double_zero(s) == s,
    decreases s.len(),
{
    if s.len() > 0 {
        assert(!double_zero_at(s, 0));
        assert forall|i: int| !#[trigger] double_zero_at(s.skip(1), i) by {
            assert(double_zero_at(s.skip(1), i) ==> double_zero_at(s, i + 1));
        }
        lemma_drop_double_zero_unchanged(s.skip(1));
        assert(seq![s[0]] + s.skip(1) =~= s);
    }
}

proof fn lemma_drop_double_zero_head(s: Seq<char>)
    requires
        s.len() > 0,
        s[0] != '0',
    ensures
        drop_double_zero(s).len() > 0,
        drop_double_zero(s)[0] == s[0],
{
    assert(!double_zero_at(s, 0));
}

proof fn lemma_drop_double_zero_clean(s: Seq<char>)
    ensures
        no_double_zero(drop_double_zero(s)),
    decreases s.len(),
{
    if s.len() > 0 {
        if double_zero_at(s, 0) {
            lemma_drop_double_zero_clean(s.skip(2));
        } else {
            let t = drop_double_zero(s.skip(1));
            lemma_drop_double_zero_clean(s.skip(1));
            let r = seq![s[0]] + t;
            if s[0] == '0' && s.len() > 1 {
                lemma_drop_double_zero_head(s.skip(1));
            }
            assert forall|i: int| !#[trigger] double_zero_at(r, i) by {
                if i >= 1 {
                    assert(double_zero_at(r, i) ==> double_zero_at(t, i - 1));
                }
            }
        }
    }
}

/// Normalising twice gives what normalising once gave, for a version without a
/// release-candidate marker whose normalised form holds none either (removing
/// `00` can join `-r00c` into a new marker).
pub proof fn lemma_normalize_idempotent(v: Seq<char>)
    requires
        no_marker(v),
        no_marker(normalize(v)),
    ensures
        normalize(normalize(v)) == normalize(v),
{
    lemma_drop_double_zero_clean(replace_marker(v));
    lemma_replace_marker_unchanged(normalize(v));
    lemma_drop_double_zero_unchanged(normalize(v));
}

/// Release candidates 1 to 9 of `v1.9.2` map to `v1.9.20N`.
pub proof fn lemma_normalize_release_candidate(d: char)
    requires
        '1' <= d <= '9',
    ensures
        normalize(seq!['v', '1', '.', '9', '.', '2', '-', 'r', 'c', d]) == seq![
            'v',
            '1',
            '.',
            '9',
            '.',
            '2',
            '0',
            d,
        ],
{
    let s = seq!['v', '1', '.', '9', '.', '2', '-', 'r', 'c', d];
    let t = seq!['v', '1', '.', '9', '.', '2', '0', d];
    let m = seq!['-', 'r', 'c', d];
    assert(marker_at(m, 0));
    assert(m.skip(3) =~= seq![d]);
    assert(!marker_at(seq![d], 0));
    assert(seq![d].skip(1) =~= Seq::<char>::empty());
    assert(replace_marker(Seq::<char>::empty()) =~= Seq::<char>::empty());
    assert(replace_marker(seq![d]) =~= seq![d]);
    assert(replace_marker(m) =~= seq!['0', d]);
    assert(s.skip(6) =~= m);
    assert(t.skip(6) =~= seq!['0', d]);
    assert(!marker_at(s.skip(5), 0));
    assert(s.skip(5).skip(1) =~= s.skip(6));
    assert(replace_marker(s.skip(5)) =~= t.skip(5));
    assert(!marker_at(s.skip(4), 0));
    assert(s.skip(4).skip(1) =~= s.skip(5));
    assert(replace_marker(s.skip(4)) =~= t.skip(4));
    assert(!marker_at(s.skip(3), 0));
    assert(s.skip(3).skip(1) =~= s.skip(4));
    assert(replace_marker(s.skip(3)) =~= t.skip(3));
    assert(!marker_at(s.skip(2), 0));
    assert(s.skip(2).skip(1) =~= s.skip(3));
    assert(replace_marker(s.skip(2)) =~= t.skip(2));
    assert(!marker_at(s.skip(1), 0));
    assert(s.skip(1).skip(1) =~= s.skip(2));
    assert(replace_marker(s.skip(1)) =~= t.skip(1));
    assert(!marker_at(s.skip(0), 0));
    assert(s.skip(0).skip(1) =~= s.skip(1));
    assert(replace_marker(s.skip(0)) =~= t.skip(0));
    assert(s.skip(0) =~= s);
    assert(t.skip(0) =~= t);
    assert(no_double_zero(t));
    lemma_drop_double_zero_unchanged(t);
}

/// A version is never outdated against itself, where normalising it leaves its
/// parse unchanged (a release candidate such as `1.9.2-rc1` becomes `1.9.201`,
/// another version).
pub proof fn lemma_not_outdated_against_itself(v: Seq<char>)
    requires
        semver_parse(v).is_some(),
        semver_parse(normalize(v)) == semver_parse(v),
    ensures
        outdated_spec(v, v) == Ok::<bool, MalformedVersion>(false),
{
}

} // verus!
