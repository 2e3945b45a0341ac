//! The reconciliation pass: for each repository, in order, whether its mirror
//! is created or refreshed, and what is run for it.
use vstd::prelude::*;
use crate::commands::{
    Invocation, clone_command, clone_invocation, hook_path, hook_path_of, mirror_path,
    mirror_path_of, update_command, update_invocation,
};
use crate::listing::{Repository, repos_view};

verus! {

/// What is done for one repository.
#[derive(Debug, Clone, Copy, PartialEq, Eq, Structural)]
pub enum Action {
    /// No mirror exists yet: create one.
    Clone,
    /// The mirror exists: refresh it.
    Update,
}

/// One repository's share of a pass.
#[derive(Debug)]
pub struct Step {
    pub action: Action,
    /// The mirror's directory.
    pub path: String,
    /// The progress line, `cloning <name>` or `updating <name>`.
    pub status: String,
    /// The program to run; none on a dry run.
    pub command: Option<Invocation>,
    /// Where the push-rejecting hook goes once the clone has succeeded; none
    /// for a refresh and on a dry run.
    pub hook: Option<String>,
}

/// Why a pass was refused before anything was done.
#[derive(Debug)]
pub enum ReconcileError {
    /// A repository name that cannot serve as a single directory name under
    /// the root: empty, `.`, `..`, or holding `/` or a NUL character.
    UnsafeName(String),
}

/// The names of the repositories, in order.
pub open spec fn names_of(repos: Seq<(Seq<char>, Seq<char>)>) -> Seq<Seq<char>> {
    repos.map_values(|r: (Seq<char>, Seq<char>)| r.0)
}

/// A name that denotes one directory right under the root.
pub open spec fn safe_name(n: Seq<char>) -> bool {
    &&& n.len() > 0
    &&& n != "."@
    &&& n != ".."@
    &&& forall|k: int| 0 <= k < n.len() ==> #[trigger] n[k] != '/' && n[k] != '\0'
}

/// Whether the mirror of the `i`-th repository exists when the pass reaches
/// it: its directory was there before the pass, or an earlier repository of
/// the same name was cloned by it.
pub open spec fn present(names: Seq<Seq<char>>, dirs: Seq<Seq<char>>, dry_run: bool, i: int) -> bool {
    dirs.contains(names[i]) || (!dry_run && exists|j: int| 0 <= j < i && names[j] == names[i])
}

/// The directories under the root after a pass that succeeded.
pub open spec fn dirs_after(names: Seq<Seq<char>>, dirs: Seq<Seq<char>>, dry_run: bool) -> Seq<Seq<char>> {
    if dry_run {
        dirs
    } else {
        dirs + names
    }
}

/// Refresh where the mirror is there, clone where it is not.
pub open spec fn action_for(update: bool) -> Action {
    if update {
        Action::Update
    } else {
        Action::Clone
    }
}

/// The progress line of a step.
pub open spec fn status_text(action: Action, name: Seq<char>) -> Seq<char> {
    match action {
        Action::Clone => "cloning "@ + name,
        Action::Update => "updating "@ + name,
    }
}

/// The step for repository `repo` under `root`, given whether its mirror is
/// there.
pub open spec fn step_is(
    s: Step,
    root: Seq<char>,
    repo: (Seq<char>, Seq<char>),
    update: bool,
    dry_run: bool,
) -> bool {
    let path = mirror_path_of(root, repo.0);
    &&& s.action == action_for(update)
    &&& s.path@ == path
    &&& s.status@ == status_text(s.action, repo.0)
    &&& dry_run ==> s.command is None && s.hook is None
    &&& (!dry_run && update) ==> (s.command matches Some(c) && c@ == update_invocation(path))
        && s.hook is None
    &&& (!dry_run && !update) ==> (s.command matches Some(c) && c@ == clone_invocation(path, repo.1))
        && (s.hook matches Some(h) && h@ == hook_path_of(path))
}

fn is_safe_name(name: &String) -> (r: bool)
    ensures
        r == safe_name(name@),
{
    let s = name.as_str();
    let n = s.unicode_len();
    if n == 0 || *name == ".".to_string() || *name == "..".to_string() {
        return false;
    }
    let mut k: usize = 0;
    while k < n
        invariant
            n == name@.len(),
            s@ == name@,
            k <= n,
            forall|m: int| 0 <= m < k ==> #[trigger] name@[m] != '/' && name@[m] != '\0',
        decreases n - k,
    {
        let c = s.get_char(k);
        if c == '/' || c == '\0' {
            return false;
        }
        k = k + 1;
    }
    true
}

fn contains_name(dirs: &Vec<String>, name: &String) -> (r: bool)
    ensures
        r == dirs@.map_values(|s: String| s@).contains(name@),
{
    let ghost view = dirs@.map_values(|s: String| s@);
    let mut k: usize = 0;
    while k < dirs.len()
        invariant
            k <= dirs.len(),
            view == dirs@.map_values(|s: String| s@),
            forall|m: int| 0 <= m < k ==> view[m] != name@,
        decreases dirs.len() - k,
    {
        if dirs[k] == *name {
            assert(view[k as int] == name@);
            return true;
        }
        k = k + 1;
    }
    false
}

fn seen_before(repos: &Vec<Repository>, i: usize, name: &String) -> (r: bool)
    requires
        i <= repos.len(),
    ensures
        r == exists|j: int| 0 <= j < i && names_of(repos_view(repos@))[j] == name@,
{
    let ghost names = names_of(repos_view(repos@));
    let mut k: usize = 0;
    while k < i
        invariant
            k <= i <= repos.len(),
            names == names_of(repos_view(repos@)),
            forall|m: int| 0 <= m < k ==> names[m] != name@,
        decreases i - k,
    {
        if repos[k].name == *name {
            assert(names[k as int] == name@);
            return true;
        }
        k = k + 1;
    }
    false
}

fn step_for(root: &str, repo: &Repository, update: bool, dry_run: bool) -> (s: Step)
    ensures
        step_is(s, root@, repo@, update, dry_run),
{
    let path = mirror_path(root, repo.name.as_str());
    if update {
        let status = "updating ".to_string().concat(repo.name.as_str());
        let command = if dry_run {
            None
        } else {
            Some(update_command(path.as_str()))
        };
        Step { action: Action::Update, path, status, command, hook: None }
    } else {
        let status = "cloning ".to_string().concat(repo.name.as_str());
        let (command, hook) = if dry_run {
            (None, None)
        } else {
            (Some(clone_command(path.as_str(), repo.ssh_url.as_str())), Some(hook_path(path.as_str())))
        };
        Step { action: Action::Clone, path, status, command, hook }
    }
}

/// Plans a pass over `repos`, in order, under `root`, where `existing` names
/// the directories under `root` before the pass. A repository whose mirror is
/// there (or was cloned earlier in the same pass) is refreshed, any other is
/// cloned; on a dry run nothing is to be run. The pass is refused as a whole
/// where a name is not a safe directory name.
pub fn plan(repos: &Vec<Repository>, root: &str, existing: &Vec<String>, dry_run: bool) -> (r:
    Result<Vec<Step>, ReconcileError>)
    ensures
        match r {
            Ok(steps) => {
                &&& forall|i: int|
                    0 <= i < repos.len() ==> safe_name(#[trigger] repos@[i].name@)
                &&& steps.len() == repos.len()
                &&& forall|i: int|
                    0 <= i < repos.len() ==> step_is(
                        #[trigger] steps@[i],
                        root@,
                        repos@[i]@,
                        present(
                            names_of(repos_view(repos@)),
                            existing@.map_values(|s: String| s@),
                            dry_run,
                            i,
                        ),
                        dry_run,
                    )
            },
            Err(ReconcileError::UnsafeName(n)) => exists|i: int|
                0 <= i < repos.len() && repos@[i].name@ == n@ && !safe_name(n@),
        },
{
    let ghost names = names_of(repos_view(repos@));
    let ghost dirs = existing@.map_values(|s: String| s@);
    let mut k: usize = 0;
    while k < repos.len()
        invariant
            k <= repos.len(),
            forall|m: int| 0 <= m < k ==> safe_name(#[trigger] repos@[m].name@),
        decreases repos.len() - k,
    {
        if !is_safe_name(&repos[k].name) {
            return Err(ReconcileError::UnsafeName(repos[k].name.clone()));
        }
        k = k + 1;
    }
    let mut steps: Vec<Step> = Vec::new();
    let mut i: usize = 0;
    while i < repos.len()
        invariant
            i <= repos.len(),
            names == names_of(repos_view(repos@)),
            dirs == existing@.map_values(|s: String| s@),
            steps.len() == i,
            forall|m: int|
                0 <= m < i ==> step_is(
                    #[trigger] steps@[m],
                    root@,
                    repos@[m]@,
                    present(names, dirs, dry_run, m),
                    dry_run,
                ),
        decreases repos.len() - i,
    {
        let repo = &repos[i];
        assert(names[i as int] == repo.name@);
        let update = contains_name(existing, &repo.name) || (!dry_run && seen_before(
            repos,
            i,
            &repo.name,
        ));
        assert(update == present(names, dirs, dry_run, i as int));
        steps.push(step_for(root, repo, update, dry_run));
        i = i + 1;
    }
    Ok(steps)
}

/// Running twice is idempotent: on a root that holds none of the account's
/// (distinctly named) repositories, a real pass clones every one of them, and
/// a second pass over the directories that the first one left refreshes every
/// one of them and adds no directory.
pub proof fn lemma_second_pass_refreshes(names: Seq<Seq<char>>, dirs: Seq<Seq<char>>)
    requires
        names.no_duplicates(),
        forall|i: int| 0 <= i < names.len() ==> !dirs.contains(#[trigger] names[i]),
    ensures
        forall|i: int| 0 <= i < names.len() ==> !present(names, dirs, false, i),
        forall|i: int|
            0 <= i < names.len() ==> present(names, dirs_after(names, dirs, false), false, i),
        dirs_after(names, dirs_after(names, dirs, false), false).to_set()
            == dirs_after(names, dirs, false).to_set(),
{
    let after = dirs_after(names, dirs, false);
    assert forall|i: int| 0 <= i < names.len() implies present(names, after, false, i) by {
        assert(after[dirs.len() + i] == names[i]);
    }
    let twice = dirs_after(names, after, false);
    assert forall|x: Seq<char>| twice.contains(x) implies after.contains(x) by {
        let k = choose|k: int| 0 <= k < twice.len() && twice[k] == x;
        if k >= after.len() {
            assert(after[dirs.len() + (k - after.len())] == x);
        }
    }
    assert forall|x: Seq<char>| after.contains(x) implies twice.contains(x) by {
        let k = choose|k: int| 0 <= k < after.len() && after[k] == x;
        assert(twice[k] == x);
    }
    assert(twice.to_set() =~= after.to_set());
}

/// A dry run changes nothing on disk, and decides each repository from the
/// directories that were there alone.
pub proof fn lemma_dry_run_leaves_disk_alone(names: Seq<Seq<char>>, dirs: Seq<Seq<char>>)
    ensures
        dirs_after(names, dirs, true) == dirs,
        forall|i: int|
            0 <= i < names.len() ==> present(names, dirs, true, i) == dirs.contains(names[i]),
{
}

} // verus!
