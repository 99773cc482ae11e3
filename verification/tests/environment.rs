use jj_work::environment::{
    single_component, get_repo_root, is_own_symlink, jj_repo_path, CreateEvent, CreateStep, DeleteEvent, DeleteStep,
    EnvError, Environment, RepoFile, Symlink, VaultEntry,
};
use jj_work::settings::Settings;

fn s(x: &str) -> String {
    x.to_string()
}

fn settings(vault: &str, links: &[&str]) -> Settings {
    Settings {
        vault_dir: s(vault),
        paths_to_symlink: links.iter().map(|p| s(p)).collect(),
        command: vec![],
    }
}

fn main_repo_env(links: &[&str]) -> Environment {
    Environment::new(
        settings(".jj/jj-work", links),
        s("/home/u/repo"),
        RepoFile::NotAFile,
        s("/home/u/repo/src"),
    )
    .unwrap()
}

#[test]
fn jj_repo_path_is_under_workspace_root() {
    assert_eq!(jj_repo_path("/home/u/repo"), "/home/u/repo/.jj/repo");
}

#[test]
fn main_repo_root_is_workspace_root() {
    let r = get_repo_root("/home/u/repo", &RepoFile::NotAFile).unwrap();
    assert_eq!(r, "/home/u/repo");
}

#[test]
fn secondary_workspace_root_comes_from_file() {
    let r = get_repo_root(
        "/home/u/repo/.jj/jj-work/feat",
        &RepoFile::Contents(s("/home/u/repo/.jj/repo\n")),
    )
    .unwrap();
    assert_eq!(r, "/home/u/repo");
}

#[test]
fn repo_dir_without_grandparent_is_an_error() {
    let r = get_repo_root("/w", &RepoFile::Contents(s(" repo ")));
    match r {
        Err(EnvError::NoRepoRoot { repo_dir }) => assert_eq!(repo_dir, "repo"),
        other => panic!("unexpected {:?}", other),
    }
}

#[test]
fn unreadable_repo_file_is_an_error() {
    match get_repo_root("/w", &RepoFile::Unreadable(s("denied"))) {
        Err(EnvError::ReadFailed { path, cause }) => {
            assert_eq!(path, "/w/.jj/repo");
            assert_eq!(cause, "denied");
        }
        other => panic!("unexpected {:?}", other),
    }
}

#[test]
fn main_repo_has_no_workspace_name() {
    let env = main_repo_env(&[]);
    assert_eq!(env.repo_root(), "/home/u/repo");
    assert!(format!("{:?}", env).contains("_current_workspace_name: None"));
}

#[test]
fn secondary_workspace_is_named_after_its_dir() {
    let env = Environment::new(
        settings(".jj/jj-work", &[]),
        s("/home/u/repo/.jj/jj-work/feat"),
        RepoFile::Contents(s("/home/u/repo/.jj/repo")),
        s("/home/u/repo/.jj/jj-work/feat"),
    )
    .unwrap();
    assert_eq!(env.repo_root(), "/home/u/repo");
    assert!(format!("{:?}", env).contains("_current_workspace_name: Some(\"feat\")"));
}

#[test]
fn workspace_root_without_name_is_an_error() {
    let r = Environment::new(
        settings(".jj/jj-work", &[]),
        s("/"),
        RepoFile::Contents(s("/home/u/repo/.jj/repo")),
        s("/"),
    );
    match r {
        Err(EnvError::NoWorkspaceName { workspace_root }) => assert_eq!(workspace_root, "/"),
        other => panic!("unexpected {:?}", other.map(|_| ())),
    }
}

#[test]
fn vault_and_paths() {
    let env = main_repo_env(&[]);
    assert_eq!(env.vault_dir(), "/home/u/repo/.jj/jj-work");
    assert_eq!(env.path("feat"), "/home/u/repo/.jj/jj-work/feat");
    assert_eq!(env.workspace_dir("feat"), "/home/u/repo/.jj/jj-work/feat");
}

#[test]
fn absolute_vault_dir_replaces_repo_root() {
    let env = Environment::new(
        settings("/srv/vault", &[]),
        s("/home/u/repo"),
        RepoFile::NotAFile,
        s("/"),
    )
    .unwrap();
    assert_eq!(env.vault_dir(), "/srv/vault");
    assert_eq!(env.path("x"), "/srv/vault/x");
}

#[test]
fn workspace_in_vault_is_named_after_it() {
    let env = main_repo_env(&[]);
    let p = env.path("feat");
    assert!(p.starts_with(&(env.vault_dir() + "/")));
    assert_eq!(std::path::Path::new(&p).file_name().unwrap(), "feat");
}

#[test]
fn without_jj_dir_a_workspace_is_invalid() {
    let env = main_repo_env(&[]);
    assert_eq!(env.is_valid_workspace("feat", false, &RepoFile::Unreadable(s("denied"))).unwrap(), false);
}

#[test]
fn workspace_of_this_repo_is_valid() {
    let env = main_repo_env(&[]);
    let file = RepoFile::Contents(s("/home/u/repo/.jj/repo\n"));
    assert_eq!(env.is_valid_workspace("feat", true, &file).unwrap(), true);
}

#[test]
fn workspace_of_another_repo_is_invalid() {
    let env = main_repo_env(&[]);
    let file = RepoFile::Contents(s("/home/u/other/.jj/repo"));
    assert_eq!(env.is_valid_workspace("feat", true, &file).unwrap(), false);
}

#[test]
fn repo_inside_vault_is_not_this_repo() {
    let env = main_repo_env(&[]);
    assert_eq!(env.is_valid_workspace("feat", true, &RepoFile::NotAFile).unwrap(), false);
}

#[test]
fn unreadable_workspace_check_fails() {
    let env = main_repo_env(&[]);
    match env.is_valid_workspace("feat", true, &RepoFile::Unreadable(s("denied"))) {
        Err(EnvError::ReadFailed { path, .. }) => {
            assert_eq!(path, "/home/u/repo/.jj/jj-work/feat/.jj/repo")
        }
        other => panic!("unexpected {:?}", other),
    }
}

#[test]
fn add_args_without_revisions() {
    let env = main_repo_env(&[]);
    let args = env.workspace_add_args("feat", &vec![]).unwrap();
    assert_eq!(args, vec![s("workspace"), s("add"), s("/home/u/repo/.jj/jj-work/feat")]);
}

#[test]
fn add_args_with_one_revision() {
    let env = main_repo_env(&[]);
    let args = env.workspace_add_args("feat", &vec![s("main")]).unwrap();
    assert_eq!(
        args,
        vec![s("workspace"), s("add"), s("-r"), s("main"), s("/home/u/repo/.jj/jj-work/feat")]
    );
}

#[test]
fn add_args_with_two_revisions() {
    let env = main_repo_env(&[]);
    let args = env.workspace_add_args("feat", &vec![s("a"), s("b")]).unwrap();
    assert_eq!(
        args,
        vec![s("workspace"), s("add"), s("-r"), s("a"), s("-r"), s("b"), s("/home/u/repo/.jj/jj-work/feat")]
    );
}

#[test]
fn add_refuses_three_revisions() {
    let env = main_repo_env(&[]);
    let r = env.workspace_add_args("feat", &vec![s("a"), s("b"), s("c")]);
    assert!(matches!(r, Err(EnvError::TooManyRevisions)));
}

#[test]
fn add_creates_where_path_looks() {
    let env = main_repo_env(&[]);
    let args = env.workspace_add_args("feat", &vec![s("a")]).unwrap();
    assert_eq!(args.last().unwrap(), &env.path("feat"));
}

#[test]
fn links_of_a_new_workspace() {
    let env = main_repo_env(&["target", ".vscode/settings.json"]);
    let links = env.symlinks_to_create("feat");
    assert_eq!(links.len(), 2);
    assert_eq!(links[0].source, "/home/u/repo/target");
    assert_eq!(links[0].dest, "/home/u/repo/.jj/jj-work/feat/target");
    assert_eq!(links[1].source, "/home/u/repo/.vscode/settings.json");
    assert_eq!(links[1].dest, "/home/u/repo/.jj/jj-work/feat/.vscode/settings.json");
}

#[test]
fn delete_looks_for_the_links_add_made() {
    let env = main_repo_env(&["target", "node_modules"]);
    let made = env.symlinks_to_create("feat");
    let sought = env.symlinks_to_remove("feat");
    assert_eq!(made.len(), sought.len());
    for (m, f) in made.iter().zip(sought.iter()) {
        assert_eq!(m.source, f.source);
        assert_eq!(m.dest, f.dest);
    }
}

#[test]
fn own_symlink_points_into_repo() {
    let link = Symlink { source: s("/home/u/repo/target"), dest: s("/v/feat/target") };
    assert!(is_own_symlink(&link, Some("/home/u/repo/target")));
    assert!(is_own_symlink(&link, Some("/home/u/repo/target/")));
    assert!(!is_own_symlink(&link, Some("/elsewhere/target")));
    assert!(!is_own_symlink(&link, None));
}

#[test]
fn list_shows_valid_workspaces_only() {
    let env = main_repo_env(&[]);
    let entries = vec![
        VaultEntry { name: Some(s("a")), has_jj_dir: true, repo_file: RepoFile::Contents(s("/home/u/repo/.jj/repo")) },
        VaultEntry { name: Some(s("no-jj")), has_jj_dir: false, repo_file: RepoFile::NotAFile },
        VaultEntry { name: None, has_jj_dir: true, repo_file: RepoFile::Contents(s("/home/u/repo/.jj/repo")) },
        VaultEntry { name: Some(s("other")), has_jj_dir: true, repo_file: RepoFile::Contents(s("/x/.jj/repo")) },
        VaultEntry { name: Some(s("broken")), has_jj_dir: true, repo_file: RepoFile::Unreadable(s("denied")) },
        VaultEntry { name: Some(s("b")), has_jj_dir: true, repo_file: RepoFile::Contents(s("/home/u/repo/.jj/repo\n")) },
    ];
    assert_eq!(env.list_workspaces(&entries), vec![s("a"), s("b")]);
}

#[test]
fn empty_vault_lists_nothing() {
    let env = main_repo_env(&[]);
    assert!(env.list_workspaces(&vec![]).is_empty());
}

#[test]
fn deleting_needs_a_valid_workspace() {
    let env = main_repo_env(&[]);
    assert!(matches!(env.delete_workspace("feat", DeleteEvent::Begin), DeleteStep::CheckWorkspace));
    assert!(matches!(
        env.delete_workspace("feat", DeleteEvent::Checked { valid: true }),
        DeleteStep::UpdateStale
    ));
    match env.delete_workspace("feat", DeleteEvent::Checked { valid: false }) {
        DeleteStep::Finish(Err(e @ EnvError::WorkspaceMissing { .. })) => {
            assert_eq!(e.message(), "Workspace 'feat' does not exist or is invalid")
        }
        other => panic!("unexpected {:?}", other),
    }
}

#[test]
fn update_stale_failure_stops_deletion() {
    let env = main_repo_env(&[]);
    assert!(matches!(
        env.delete_workspace("feat", DeleteEvent::UpdatedStale { success: true, code: Some(0) }),
        DeleteStep::ClearSparse
    ));
    match env.delete_workspace("feat", DeleteEvent::UpdatedStale { success: false, code: Some(2) }) {
        DeleteStep::Finish(Err(e)) => {
            assert_eq!(e.message(), "`jj workspace update-stale` failed with exit code Some(2)")
        }
        other => panic!("unexpected {:?}", other),
    }
    match env.delete_workspace("feat", DeleteEvent::UpdatedStale { success: false, code: None }) {
        DeleteStep::Finish(Err(e)) => {
            assert_eq!(e.message(), "`jj workspace update-stale` failed with exit code None")
        }
        other => panic!("unexpected {:?}", other),
    }
}

#[test]
fn deletion_clears_forgets_and_removes_jj_dir() {
    let env = main_repo_env(&[]);
    match env.delete_workspace("feat", DeleteEvent::SparseCleared) {
        DeleteStep::Forget(n) => assert_eq!(n, "feat"),
        other => panic!("unexpected {:?}", other),
    }
    assert!(matches!(env.delete_workspace("feat", DeleteEvent::Forgotten), DeleteStep::RemoveJjDir));
    assert!(matches!(env.delete_workspace("feat", DeleteEvent::JjDirRemoved), DeleteStep::Finish(Ok(()))));
}

#[test]
fn deletion_removes_only_own_links() {
    let env = main_repo_env(&["target", "node_modules"]);
    match env.delete_workspace("feat", DeleteEvent::JjDirRemoved) {
        DeleteStep::ReadLink { index, link } => {
            assert_eq!(index, 0);
            assert_eq!(link.dest, "/home/u/repo/.jj/jj-work/feat/target");
            assert_eq!(link.source, "/home/u/repo/target");
        }
        other => panic!("unexpected {:?}", other),
    }
    match env.delete_workspace("feat", DeleteEvent::LinkRead { index: 0, target: Some(s("/home/u/repo/target")) }) {
        DeleteStep::RemoveLink { index, path } => {
            assert_eq!(index, 0);
            assert_eq!(path, "/home/u/repo/.jj/jj-work/feat/target");
        }
        other => panic!("unexpected {:?}", other),
    }
    match env.delete_workspace("feat", DeleteEvent::LinkRemoved(0)) {
        DeleteStep::ReadLink { index, link } => {
            assert_eq!(index, 1);
            assert_eq!(link.dest, "/home/u/repo/.jj/jj-work/feat/node_modules");
        }
        other => panic!("unexpected {:?}", other),
    }
    assert!(matches!(
        env.delete_workspace("feat", DeleteEvent::LinkRead { index: 1, target: Some(s("/elsewhere")) }),
        DeleteStep::Finish(Ok(()))
    ));
    assert!(matches!(
        env.delete_workspace("feat", DeleteEvent::LinkRead { index: 0, target: None }),
        DeleteStep::ReadLink { index: 1, .. }
    ));
}

#[test]
fn creation_steps() {
    let env = main_repo_env(&["target"]);
    let revs = vec![s("main")];
    match env.create_workspace("feat", &revs, CreateEvent::Begin) {
        CreateStep::MakeVaultDir(d) => assert_eq!(d, "/home/u/repo/.jj/jj-work"),
        other => panic!("unexpected {:?}", other),
    }
    match env.create_workspace("feat", &revs, CreateEvent::VaultDirMade) {
        CreateStep::AddWorkspace(args) => assert_eq!(
            args,
            vec![s("workspace"), s("add"), s("-r"), s("main"), s("/home/u/repo/.jj/jj-work/feat")]
        ),
        other => panic!("unexpected {:?}", other),
    }
    match env.create_workspace("feat", &revs, CreateEvent::WorkspaceAdded) {
        CreateStep::MakeLink { index, link } => {
            assert_eq!(index, 0);
            assert_eq!(link.source, "/home/u/repo/target");
            assert_eq!(link.dest, "/home/u/repo/.jj/jj-work/feat/target");
        }
        other => panic!("unexpected {:?}", other),
    }
    assert!(matches!(
        env.create_workspace("feat", &revs, CreateEvent::LinkMade(0)),
        CreateStep::Finish(Ok(()))
    ));
}

#[test]
fn creation_with_three_revisions_fails_after_vault() {
    let env = main_repo_env(&[]);
    let revs = vec![s("a"), s("b"), s("c")];
    assert!(matches!(env.create_workspace("feat", &revs, CreateEvent::Begin), CreateStep::MakeVaultDir(_)));
    match env.create_workspace("feat", &revs, CreateEvent::VaultDirMade) {
        CreateStep::Finish(Err(EnvError::TooManyRevisions)) => {}
        other => panic!("unexpected {:?}", other),
    }
}

#[test]
fn error_messages() {
    assert_eq!(
        EnvError::TooManyRevisions.message(),
        "Currently at most two `-r` arguments are supported when creating a workspace"
    );
    assert_eq!(
        EnvError::NoRepoRoot { repo_dir: s("repo") }.message(),
        "Couldn't determine repo root from repo path \"repo\""
    );
    assert_eq!(
        EnvError::NoWorkspaceName { workspace_root: s("/") }.message(),
        "Couldn't determine workspace name from path \"/\""
    );
    assert_eq!(
        EnvError::ReadFailed { path: s("/w/.jj/repo"), cause: s("denied") }.message(),
        "Failed to read \"/w/.jj/repo\""
    );
}

#[test]
fn single_components() {
    assert!(single_component("feat"));
    assert!(single_component("..a"));
    assert!(single_component("a.b"));
    for bad in ["", ".", "..", "a/b", "/home/u/repo", "feat/"] {
        assert!(!single_component(bad));
    }
}

#[test]
fn repo_root_is_no_workspace() {
    let env = main_repo_env(&[]);
    // The main repo's `.jj/repo` is its repo directory.
    assert_eq!(env.is_valid_workspace("/home/u/repo", true, &RepoFile::NotAFile).unwrap(), false);
    let file = RepoFile::Contents(s("/home/u/repo/.jj/repo"));
    for bad in ["", ".", "..", "a/b", "../.."] {
        assert_eq!(env.is_valid_workspace(bad, true, &file).unwrap(), false);
    }
}

#[test]
fn delete_never_acts_outside_the_vault() {
    let env = main_repo_env(&["target"]);
    for event in [
        DeleteEvent::Begin,
        DeleteEvent::Checked { valid: true },
        DeleteEvent::UpdatedStale { success: true, code: Some(0) },
        DeleteEvent::SparseCleared,
        DeleteEvent::JjDirRemoved,
    ] {
        match env.delete_workspace("/home/u/repo", event) {
            DeleteStep::Finish(Err(EnvError::WorkspaceMissing { name })) => assert_eq!(name, "/home/u/repo"),
            other => panic!("unexpected {:?}", other),
        }
    }
}

#[test]
fn create_refuses_names_outside_the_vault() {
    let env = main_repo_env(&[]);
    match env.create_workspace("../elsewhere", &vec![], CreateEvent::Begin) {
        CreateStep::Finish(Err(e @ EnvError::InvalidWorkspaceName { .. })) => assert_eq!(
            e.message(),
            "Workspace name '../elsewhere' must be a single path component"
        ),
        other => panic!("unexpected {:?}", other),
    }
}

#[test]
fn paths_in_messages_are_quoted_as_paths() {
    let p = "/w/it's \"q\"";
    let e = EnvError::NoRepoRoot { repo_dir: s(p) };
    assert_eq!(e.message(), format!("Couldn't determine repo root from repo path {:?}", std::path::Path::new(p)));
}

#[test]
fn list_keeps_entry_order() {
    let env = main_repo_env(&[]);
    let ok = || RepoFile::Contents(s("/home/u/repo/.jj/repo"));
    let entries = vec![
        VaultEntry { name: Some(s("a")), has_jj_dir: true, repo_file: ok() },
        VaultEntry { name: Some(s("b")), has_jj_dir: false, repo_file: ok() },
        VaultEntry { name: Some(s("c")), has_jj_dir: true, repo_file: ok() },
        VaultEntry { name: Some(s("d")), has_jj_dir: true, repo_file: ok() },
    ];
    assert_eq!(env.list_workspaces(&entries), vec![s("a"), s("c"), s("d")]);
}

#[test]
fn getters_of_the_environment() {
    let env = Environment::new(
        settings(".jj/jj-work", &[]),
        s("/home/u/repo/.jj/jj-work/feat"),
        RepoFile::Contents(s("/home/u/repo/.jj/repo")),
        s("/tmp"),
    )
    .unwrap();
    assert_eq!(env.current_dir(), "/tmp");
    assert_eq!(env.current_workspace_root(), "/home/u/repo/.jj/jj-work/feat");
    assert_eq!(env.current_workspace_name().map(|n| n.as_str()), Some("feat"));
    assert_eq!(env.config().vault_dir, ".jj/jj-work");
    assert!(std::ptr::eq(env.config(), &env.config));
}

#[test]
fn repo_at_the_filesystem_root() {
    assert_eq!(get_repo_root("/", &RepoFile::NotAFile).unwrap(), "/");
    let pointer = || RepoFile::Contents(s("/.jj/repo"));
    assert_eq!(get_repo_root("/.jj/jj-work/feat", &pointer()).unwrap(), "/");
    let env = Environment::new(settings(".jj/jj-work", &["target"]), s("/"), RepoFile::NotAFile, s("/src")).unwrap();
    assert_eq!(env.repo_root(), "/");
    assert_eq!(env.current_workspace_name(), None);
    assert_eq!(env.vault_dir(), "/.jj/jj-work");
    assert_eq!(env.path("feat"), "/.jj/jj-work/feat");
    assert_eq!(env.is_valid_workspace("feat", true, &pointer()).unwrap(), true);
    let entries = vec![
        VaultEntry { name: Some(s("feat")), has_jj_dir: true, repo_file: pointer() },
        VaultEntry { name: Some(s("gone")), has_jj_dir: false, repo_file: pointer() },
    ];
    assert_eq!(env.list_workspaces(&entries), vec![s("feat")]);
    let ws = Environment::new(settings(".jj/jj-work", &[]), s("/.jj/jj-work/feat"), pointer(), s("/tmp")).unwrap();
    assert_eq!(ws.repo_root(), "/");
    assert_eq!(ws.current_workspace_name().map(|n| n.as_str()), Some("feat"));
}

#[test]
fn repo_root_does_not_depend_on_the_workspace() {
    let main = main_repo_env(&[]);
    let ws = Environment::new(
        settings(".jj/jj-work", &[]),
        main.path("feat"),
        RepoFile::Contents(jj_repo_path(main.repo_root())),
        s("/tmp"),
    )
    .unwrap();
    assert_eq!(ws.repo_root(), main.repo_root());
    assert_eq!(ws.current_workspace_name().map(|n| n.as_str()), Some("feat"));
}
