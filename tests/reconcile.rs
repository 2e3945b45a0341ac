use repo_mirror::listing::Repository;
use repo_mirror::reconcile::{plan, Action, ReconcileError, Step};

fn repo(name: &str, url: &str) -> Repository {
    Repository { name: name.to_string(), ssh_url: url.to_string() }
}

fn alice() -> Vec<Repository> {
    vec![repo("a", "git@host:alice/a.git"), repo("b", "git@host:alice/b.git")]
}

fn words(s: &Step) -> Vec<String> {
    let c = s.command.as_ref().unwrap();
    let mut v = vec![c.program.clone()];
    v.extend(c.args.iter().cloned());
    v
}

#[test]
fn empty_root_clones_everything() {
    let steps = plan(&alice(), "/m", &vec![], false).unwrap();
    assert_eq!(steps.len(), 2);
    assert_eq!(steps[0].status, "cloning a");
    assert_eq!(steps[1].status, "cloning b");
    assert_eq!(steps[0].action, Action::Clone);
    assert_eq!(
        words(&steps[0]),
        vec!["git", "clone", "--mirror", "--origin", "github", "git@host:alice/a.git", "/m/a"]
    );
    assert_eq!(
        words(&steps[1]),
        vec!["git", "clone", "--mirror", "--origin", "github", "git@host:alice/b.git", "/m/b"]
    );
    assert_eq!(steps[0].hook.as_deref(), Some("/m/a/hooks/pre-receive"));
    assert_eq!(steps[1].hook.as_deref(), Some("/m/b/hooks/pre-receive"));
}

#[test]
fn existing_mirror_is_updated() {
    let steps = plan(&alice(), "/m", &vec!["a".to_string()], false).unwrap();
    assert_eq!(steps[0].status, "updating a");
    assert_eq!(steps[1].status, "cloning b");
    assert_eq!(words(&steps[0]), vec!["git", "-C", "/m/a", "remote", "update", "--prune"]);
    assert_eq!(steps[0].hook, None);
    let clones = steps.iter().filter(|s| s.action == Action::Clone).count();
    let updates = steps.iter().filter(|s| s.action == Action::Update).count();
    assert_eq!((clones, updates), (1, 1));
}

#[test]
fn second_run_updates_everything() {
    let first = plan(&alice(), "/m", &vec!["other".to_string()], false).unwrap();
    assert!(first.iter().all(|s| s.action == Action::Clone));
    let after = vec!["other".to_string(), "a".to_string(), "b".to_string()];
    let second = plan(&alice(), "/m", &after, false).unwrap();
    assert!(second.iter().all(|s| s.action == Action::Update && s.hook.is_none()));
}

#[test]
fn dry_run_runs_nothing() {
    let steps = plan(&alice(), "/m", &vec!["b".to_string()], true).unwrap();
    assert_eq!(steps[0].status, "cloning a");
    assert_eq!(steps[1].status, "updating b");
    assert!(steps.iter().all(|s| s.command.is_none() && s.hook.is_none()));
}

#[test]
fn repeated_name_is_cloned_once() {
    let repos = vec![repo("a", "u1"), repo("a", "u2")];
    let steps = plan(&repos, "/m", &vec![], false).unwrap();
    assert_eq!(steps[0].action, Action::Clone);
    assert_eq!(steps[1].action, Action::Update);
    let dry = plan(&repos, "/m", &vec![], true).unwrap();
    assert_eq!(dry[1].action, Action::Clone);
}

#[test]
fn unsafe_names_are_refused() {
    for bad in ["", ".", "..", "../etc", "a/b", "nul\0"] {
        let repos = vec![repo("ok", "u"), repo(bad, "u")];
        match plan(&repos, "/m", &vec![], false) {
            Err(ReconcileError::UnsafeName(n)) => assert_eq!(n, bad),
            Ok(_) => panic!("accepted {bad:?}"),
        }
    }
    assert!(plan(&vec![repo("..a", "u"), repo(".dotfiles", "u")], "/m", &vec![], false).is_ok());
}

#[test]
fn no_repositories_no_steps() {
    assert_eq!(plan(&vec![], "/m", &vec!["a".to_string()], false).unwrap().len(), 0);
}
