//! Deploying the mod loader's archive: which entries land where under the
//! install root, and what that does to the files there.
use vstd::prelude::*;

verus! {

/// An entry of the package archive: its stored name (`/`-separated, a
/// trailing `/` for a directory) and whether the archive reader accepted it as
/// a path that stays inside the target.
#[derive(Clone, Debug)]
pub struct ArchiveEntry {
    pub name: String,
    pub enclosed: bool,
}

/// One step of a deploy, with paths relative to the target directory.
#[derive(Clone, Debug)]
pub enum DeployAction {
    /// Create this directory and its parents.
    CreateDir(String),
    /// Create or truncate this file and copy the content of archive entry `entry`.
    WriteFile { entry: usize, path: String },
}

/// A deploy step as a value.
pub enum ActionModel {
    Dir(Seq<char>),
    File(int, Seq<char>),
}

impl View for DeployAction {
    type V = ActionModel;

    open spec fn view(&self) -> ActionModel {
        match self {
            DeployAction::CreateDir(p) => ActionModel::Dir(p@),
            DeployAction::WriteFile { entry, path } => ActionModel::File(*entry as int, path@),
        }
    }
}

/// The archive's top-level directory, with its separator.
pub open spec fn root_prefix() -> Seq<char> {
    seq!['N', 'o', 'r', 't', 'h', 's', 't', 'a', 'r', '/']
}

/// The entry lies under the top-level directory and strictly inside it.
pub open spec fn under_root(name: Seq<char>) -> bool {
    name.len() > root_prefix().len() && name.subrange(0, root_prefix().len() as int)
        == root_prefix()
}

/// The entry's path with the top-level directory stripped.
pub open spec fn stripped(name: Seq<char>) -> Seq<char> {
    name.skip(root_prefix().len() as int)
}

/// Index of the last `/` of `s`, or -1.
pub open spec fn last_slash(s: Seq<char>) -> int
    decreases s.len(),
{
    if s.len() == 0 {
        -1
    } else if s.last() == '/' {
        s.len() - 1
    } else {
        last_slash(s.drop_last())
    }
}

/// The directory holding the file at `p` (empty for the target itself).
pub open spec fn parent_of(p: Seq<char>) -> Seq<char> {
    if last_slash(p) < 0 {
        Seq::empty()
    } else {
        p.subrange(0, last_slash(p))
    }
}

/// The steps for entry `i` named `name`: none outside the top-level
/// directory, a directory for a directory entry, else the parent directory
/// and the file.
pub open spec fn entry_steps(i: int, name: Seq<char>, enclosed: bool) -> Seq<ActionModel> {
    if !enclosed || !under_root(name) {
        Seq::empty()
    } else if name.last() == '/' {
        seq![ActionModel::Dir(stripped(name))]
    } else {
        seq![ActionModel::Dir(parent_of(stripped(name))), ActionModel::File(i, stripped(name))]
    }
}

/// The steps for the first `n` entries, in archive order.
pub open spec fn plan_spec(entries: Seq<ArchiveEntry>, n: int) -> Seq<ActionModel>
    decreases n,
{
    if n <= 0 {
        Seq::empty()
    } else {
        plan_spec(entries, n - 1) + entry_steps(n - 1, entries[n - 1].name@, entries[n - 1].enclosed)
    }
}

fn starts_with_root(name: &str) -> (r: bool)
    ensures
        r == under_root(name@),
{
    let n = name.unicode_len();
    if n <= 10 {
        return false;
    }
    proof {
        reveal_strlit("Northstar/");
        assert("Northstar/"@ =~= root_prefix());
    }
    String::from_str(name.substring_char(0, 10)) == String::from_str("Northstar/")
}

fn parent_path(p: &str) -> (r: String)
    ensures
        r@ == parent_of(p@),
{
    let n = p.unicode_len();
    let mut k: usize = n;
    assert(p@.subrange(0, n as int) =~= p@);
    while k > 0 && p.get_char(k - 1) != '/'
        invariant
            n == p@.len(),
            k <= n,
            last_slash(p@) == last_slash(p@.subrange(0, k as int)),
        decreases k,
    {
        assert(p@.subrange(0, k as int).drop_last() =~= p@.subrange(0, k - 1));
        k = k - 1;
    }
    if k == 0 {
        assert(p@.subrange(0, 0) =~= Seq::<char>::empty());
        String::new()
    } else {
        assert(p@.subrange(0, k as int).last() == '/');
        String::from_str(p.substring_char(0, k - 1))
    }
}

/// The steps that deploy the archive's entries onto a target directory: each
/// entry under the top-level `Northstar/` directory lands at its path with that
/// directory stripped; other entries are skipped.
pub fn deploy_plan(entries: &Vec<ArchiveEntry>) -> (r: Vec<DeployAction>)
    ensures
        r@.map_values(|a: DeployAction| a@) == plan_spec(entries@, entries@.len() as int),
{
    let mut r: Vec<DeployAction> = Vec::new();
    let mut i: usize = 0;
    while i < entries.len()
        invariant
            i <= entries@.len(),
            r@.map_values(|a: DeployAction| a@) == plan_spec(entries@, i as int),
        decreases entries@.len() - i,
    {
        let e = &entries[i];
        let ghost before = r@;
        if e.enclosed && starts_with_root(e.name.as_str()) {
            let n = e.name.as_str().unicode_len();
            let rel = String::from_str(e.name.as_str().substring_char(10, n));
            proof {
                reveal_strlit("Northstar/");
                assert(rel@ =~= stripped(e.name@));
            }
            if e.name.as_str().get_char(n - 1) == '/' {
                r.push(DeployAction::CreateDir(rel));
            } else {
                let parent = parent_path(rel.as_str());
                r.push(DeployAction::CreateDir(parent));
                r.push(DeployAction::WriteFile { entry: i, path: rel });
            }
        }
        assert(r@.map_values(|a: DeployAction| a@) =~= before.map_values(|a: DeployAction| a@)
            + entry_steps(i as int, entries@[i as int].name@, entries@[i as int].enclosed));
        i = i + 1;
    }
    r
}

/// The target directory as a value: the directories and the files (with their
/// content) that exist under it, by relative path.
pub type FsModel = (Set<Seq<char>>, Map<Seq<char>, Seq<u8>>);

/// The effect of one step, `contents` holding the content of each archive entry.
pub open spec fn apply_step(fs: FsModel, a: ActionModel, contents: Seq<Seq<u8>>) -> FsModel {
    match a {
        ActionModel::Dir(p) => (fs.0.insert(p), fs.1),
        ActionModel::File(i, p) => (fs.0, fs.1.insert(p, contents[i])),
    }
}

/// The effect of a sequence of steps, in order.
pub open spec fn apply_steps(fs: FsModel, acts: Seq<ActionModel>, contents: Seq<Seq<u8>>) -> FsModel
    decreases acts.len(),
{
    if acts.len() == 0 {
        fs
    } else {
        apply_steps(apply_step(fs, acts[0], contents), acts.skip(1), contents)
    }
}

/// The directories that the steps create.
pub open spec fn dirs_of(acts: Seq<ActionModel>) -> Set<Seq<char>>
    decreases acts.len(),
{
    if acts.len() == 0 {
        Set::empty()
    } else {
        match acts[0] {
            ActionModel::Dir(p) => dirs_of(acts.skip(1)).insert(p),
            ActionModel::File(_, _) => dirs_of(acts.skip(1)),
        }
    }
}

/// The files that the steps write, each with the content that it is left with.
pub open spec fn writes_of(acts: Seq<ActionModel>, contents: Seq<Seq<u8>>) -> Map<Seq<char>, Seq<u8>>
    decreases acts.len(),
{
    if acts.len() == 0 {
        Map::empty()
    } else {
        match acts[0] {
            ActionModel::Dir(_) => writes_of(acts.skip(1), contents),
            ActionModel::File(i, p) => map![p => contents[i]].union_prefer_right(
                writes_of(acts.skip(1), contents),
            ),
        }
    }
}

proof fn lemma_apply_steps_overlay(fs: FsModel, acts: Seq<ActionModel>, contents: Seq<Seq<u8>>)
    ensures
        apply_steps(fs, acts, contents) == (fs.0 + dirs_of(acts), fs.1.union_prefer_right(
            writes_of(acts, contents),
        )),
    decreases acts.len(),
{
    if acts.len() == 0 {
        assert(fs.0 + Set::empty() =~= fs.0);
        assert(fs.1.union_prefer_right(Map::empty()) =~= fs.1);
    } else {
        let next = apply_step(fs, acts[0], contents);
        lemma_apply_steps_overlay(next, acts.skip(1), contents);
        match acts[0] {
            ActionModel::Dir(p) => {
                assert(fs.0.insert(p) + dirs_of(acts.skip(1)) =~= fs.0 + dirs_of(acts));
            },
            ActionModel::File(i, p) => {
                assert(fs.1.insert(p, contents[i]).union_prefer_right(writes_of(acts.skip(1), contents))
                    =~= fs.1.union_prefer_right(writes_of(acts, contents)));
            },
        }
    }
}

/// Deploying the same archive twice onto the same target leaves every file
/// and directory as deploying it once did.
pub proof fn lemma_deploy_idempotent(
    entries: Seq<ArchiveEntry>,
    contents: Seq<Seq<u8>>,
    target: FsModel,
)
    ensures
        ({
            let plan = plan_spec(entries, entries.len() as int);
            let once = apply_steps(target, plan, contents);
            apply_steps(once, plan, contents) == once
        }),
{
    let plan = plan_spec(entries, entries.len() as int);
    let once = apply_steps(target, plan, contents);
    lemma_apply_steps_overlay(target, plan, contents);
    lemma_apply_steps_overlay(once, plan, contents);
    let w = writes_of(plan, contents);
    assert(once.0 + dirs_of(plan) =~= once.0);
    assert(once.1.union_prefer_right(w) =~= once.1);
}

} // verus!
