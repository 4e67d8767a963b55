//! The package index as the library sees it, and lookups in it.
use vstd::prelude::*;

verus! {

/// One downloadable version of a package.
#[derive(Clone, Debug)]
pub struct PackageVersion {
    pub version: String,
    pub url: String,
    pub file_size: u64,
}

/// A package of the index: its name, its latest version, and its versions
/// (version strings are unique within a package).
#[derive(Clone, Debug)]
pub struct Package {
    pub name: String,
    pub latest: String,
    pub versions: Vec<PackageVersion>,
}

/// What Unicode lower-casing makes of `s`.
pub uninterp spec fn lower_of(s: Seq<char>) -> Seq<char>;

/// Relies on str::to_lowercase: the result depends on the characters alone.
#[verifier::external_body]
pub(crate) fn lowercase(s: &str) -> (r: String)
    ensures
        r@ == lower_of(s@),
{
    s.to_lowercase()
}

/// Index of the first of `names` equal to `query`.
pub fn position_of(names: &Vec<String>, query: &str) -> (r: Option<usize>)
    ensures
        match r {
            Some(i) => i < names@.len() && names@[i as int]@ == query@ && forall|k: int|
                0 <= k < i ==> #[trigger] names@[k]@ != query@,
            None => forall|k: int| 0 <= k < names@.len() ==> #[trigger] names@[k]@ != query@,
        },
{
    let q = String::from_str(query);
    let mut i: usize = 0;
    while i < names.len()
        invariant
            i <= names@.len(),
            q@ == query@,
            forall|k: int| 0 <= k < i ==> #[trigger] names@[k]@ != query@,
        decreases names@.len() - i,
    {
        if names[i] == q {
            return Some(i);
        }
        i = i + 1;
    }
    None
}

/// The package named `name`, compared after lower-casing both sides.
pub open spec fn names_match(index: Seq<Package>, i: int, name: Seq<char>) -> bool {
    lower_of(index[i].name@) == lower_of(name)
}

/// Index of the first package whose name matches `name` case-insensitively.
pub fn find_package(index: &Vec<Package>, name: &str) -> (r: Option<usize>)
    ensures
        match r {
            Some(i) => i < index@.len() && names_match(index@, i as int, name@) && forall|k: int|
                0 <= k < i ==> !#[trigger] names_match(index@, k, name@),
            None => forall|k: int|
                0 <= k < index@.len() ==> !#[trigger] names_match(index@, k, name@),
        },
{
    let mut lowered: Vec<String> = Vec::new();
    let mut i: usize = 0;
    while i < index.len()
        invariant
            i <= index@.len(),
            lowered@.len() == i,
            forall|k: int| 0 <= k < i ==> #[trigger] lowered@[k]@ == lower_of(index@[k].name@),
        decreases index@.len() - i,
    {
        lowered.push(lowercase(index[i].name.as_str()));
        i = i + 1;
    }
    let q = lowercase(name);
    let r = position_of(&lowered, q.as_str());
    proof {
        assert forall|k: int| 0 <= k < index@.len() implies names_match(index@, k, name@) == (
        lowered@[k]@ == q@) by {}
    }
    r
}

/// Index of the first version of `package` spelled exactly `version`.
pub fn find_version(package: &Package, version: &str) -> (r: Option<usize>)
    ensures
        match r {
            Some(j) => j < package.versions@.len() && package.versions@[j as int].version@
                == version@,
            None => forall|k: int|
                0 <= k < package.versions@.len() ==> #[trigger] package.versions@[k].version@
                    != version@,
        },
{
    let q = String::from_str(version);
    let mut j: usize = 0;
    while j < package.versions.len()
        invariant
            j <= package.versions@.len(),
            q@ == version@,
            forall|k: int| 0 <= k < j ==> #[trigger] package.versions@[k].version@ != version@,
        decreases package.versions@.len() - j,
    {
        if package.versions[j].version == q {
            return Some(j);
        }
        j = j + 1;
    }
    None
}

} // verus!
