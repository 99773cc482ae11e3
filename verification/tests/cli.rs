use jj_work::cli::{
    dispatch, path_command, Cli, Commands, Dispatch, EarlyAction, EnvAction, PathArgs, PathStep,
    SupportedShells, FISH_SCRIPT, SH_SCRIPT,
};
use jj_work::environment::{EnvError, Environment, RepoFile};
use jj_work::settings::Settings;

fn s(x: &str) -> String {
    x.to_string()
}

fn env() -> Environment {
    let settings = Settings { vault_dir: s(".jj/jj-work"), paths_to_symlink: vec![], command: vec![] };
    Environment::new(settings, s("/home/u/repo"), RepoFile::NotAFile, s("/home/u/repo")).unwrap()
}

fn args(name: Option<&str>, allow_missing: bool, create_if_missing: bool) -> PathArgs {
    PathArgs {
        workspace_name: name.map(s),
        allow_missing,
        create_if_missing,
        revision: vec![s("main")],
    }
}

#[test]
fn fish_script_is_the_function() {
    let mut out = String::new();
    SupportedShells::Fish.write_script(&mut out);
    assert_eq!(out, format!("{}\n", FISH_SCRIPT));
    assert!(out.contains("function jw"));
}

#[test]
fn bash_script_loads_completion_first() {
    let mut out = String::new();
    SupportedShells::Bash.write_script(&mut out);
    assert_eq!(out, format!("source <(COMPLETE=bash jj-work)\n\n{}\n", SH_SCRIPT));
}

#[test]
fn zsh_script_loads_completion_first() {
    let mut out = s("#prefix\n");
    SupportedShells::Zsh.write_script(&mut out);
    assert_eq!(out, format!("#prefix\nsource <(COMPLETE=zsh jj-work)\n\n{}\n", SH_SCRIPT));
}

#[test]
fn early_commands_need_no_repo() {
    assert!(matches!(
        dispatch(Cli { command: Commands::ShellIntegration { shell: SupportedShells::Zsh } }),
        Dispatch::Early(EarlyAction::WriteShellScript(SupportedShells::Zsh))
    ));
    assert!(matches!(dispatch(Cli { command: Commands::Docs }), Dispatch::Early(EarlyAction::PrintDocs)));
    assert!(matches!(
        dispatch(Cli { command: Commands::JWCommand { args: args(None, false, false), help: true } }),
        Dispatch::Early(EarlyAction::ShowJwHelp)
    ));
}

#[test]
fn repo_commands_need_the_environment() {
    match dispatch(Cli { command: Commands::Add { workspace_name: s("feat"), revision: vec![s("a")] } }) {
        Dispatch::WithEnv(EnvAction::CreateWorkspace { workspace_name, revision }) => {
            assert_eq!(workspace_name, "feat");
            assert_eq!(revision, vec![s("a")]);
        }
        other => panic!("unexpected {:?}", other),
    }
    assert!(matches!(
        dispatch(Cli { command: Commands::Delete { workspace_name: s("feat") } }),
        Dispatch::WithEnv(EnvAction::DeleteWorkspace { .. })
    ));
    assert!(matches!(dispatch(Cli { command: Commands::List }), Dispatch::WithEnv(EnvAction::List)));
    assert!(matches!(dispatch(Cli { command: Commands::Debug }), Dispatch::WithEnv(EnvAction::Debug)));
    assert!(matches!(
        dispatch(Cli { command: Commands::Path(args(Some("x"), true, false)) }),
        Dispatch::WithEnv(EnvAction::Path(_))
    ));
}

#[test]
fn jw_command_stands_for_path() {
    match dispatch(Cli { command: Commands::JWCommand { args: args(Some("x"), true, false), help: false } }) {
        Dispatch::WithEnv(EnvAction::Path(a)) => {
            assert_eq!(a.workspace_name.as_deref(), Some("x"));
            assert!(a.allow_missing);
        }
        other => panic!("unexpected {:?}", other),
    }
}

#[test]
fn path_without_name_is_repo_root() {
    match path_command(&env(), &args(None, false, false), None) {
        PathStep::PrintLine(t) => assert_eq!(t, "/home/u/repo"),
        other => panic!("unexpected {:?}", other),
    }
}

#[test]
fn path_allow_missing_skips_the_check() {
    match path_command(&env(), &args(Some("feat"), true, false), None) {
        PathStep::PrintLine(t) => assert_eq!(t, "/home/u/repo/.jj/jj-work/feat"),
        other => panic!("unexpected {:?}", other),
    }
}

#[test]
fn path_checks_the_workspace_first() {
    match path_command(&env(), &args(Some("feat"), false, false), None) {
        PathStep::CheckWorkspace(n) => assert_eq!(n, "feat"),
        other => panic!("unexpected {:?}", other),
    }
}

#[test]
fn path_of_valid_workspace() {
    match path_command(&env(), &args(Some("feat"), false, false), Some(true)) {
        PathStep::PrintLine(t) => assert_eq!(t, "/home/u/repo/.jj/jj-work/feat"),
        other => panic!("unexpected {:?}", other),
    }
}

#[test]
fn path_creates_missing_workspace_when_asked() {
    match path_command(&env(), &args(Some("feat"), false, true), Some(false)) {
        PathStep::CreateThenPrint { workspace_name, revision, path } => {
            assert_eq!(workspace_name, "feat");
            assert_eq!(revision, vec![s("main")]);
            assert_eq!(path, "/home/u/repo/.jj/jj-work/feat");
        }
        other => panic!("unexpected {:?}", other),
    }
}

#[test]
fn path_of_missing_workspace_fails() {
    match path_command(&env(), &args(Some("feat"), false, false), Some(false)) {
        PathStep::Fail(e @ EnvError::WorkspaceMissing { .. }) => {
            assert_eq!(e.message(), "Workspace 'feat' does not exist or is invalid")
        }
        other => panic!("unexpected {:?}", other),
    }
}

#[test]
fn path_never_creates_outside_the_vault() {
    match path_command(&env(), &args(Some("/tmp/x"), false, true), Some(false)) {
        PathStep::Fail(EnvError::WorkspaceMissing { name }) => assert_eq!(name, "/tmp/x"),
        other => panic!("unexpected {:?}", other),
    }
}
