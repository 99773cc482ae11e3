//! The command line of `jj-work`: its commands, which of them need a
//! repository, what `path` does, and the shell integration scripts.

use vstd::prelude::*;

use crate::environment::{is_single_component, single_component, EnvError, Environment};
use crate::text::clone_strings;

verus! {

/// The `jw` function for fish: it asks `jj-work jw-command` for a directory
/// and changes to it where that succeeds and prints one.
pub const FISH_SCRIPT: &'static str = "# The `jw` shell function of jj-work: jump to a workspace.\nfunction jw --wraps 'jj-work jw-command' --description 'Jump to a jj-work workspace'\n    set -l target (jj-work jw-command $argv)\n    or return $status\n    if test -n \"$target\"\n        cd $target\n    end\nend\n";

/// The `jw` function for bash and zsh, doing what the fish one does.
pub const SH_SCRIPT: &'static str = "# The `jw` shell function of jj-work: jump to a workspace.\njw() {\n    local target\n    target=\"$(jj-work jw-command \"$@\")\" || return $?\n    if [ -n \"$target\" ]; then\n        cd \"$target\"\n    fi\n}\n";

/// The shells that `jj-work` integrates with.
#[derive(Debug, Clone, Copy, PartialEq, Eq, Structural)]
pub enum SupportedShells {
    /// Use as `jj-work shell-integration fish | source`
    Fish,
    /// Use as `source <(jj-work shell-integration bash)`
    Bash,
    /// Use as `source <(jj-work shell-integration zsh)`
    Zsh,
}

/// The text that sets up `shell`: for bash and zsh, first the line that
/// loads the command-line completion, then an empty line; then the `jw`
/// function. Each piece ends with a line break of its own.
pub open spec fn script_spec(shell: SupportedShells) -> Seq<char> {
    match shell {
        SupportedShells::Fish => FISH_SCRIPT@ + "\n"@,
        SupportedShells::Bash => "source <(COMPLETE=bash jj-work)"@ + "\n"@ + "\n"@ + SH_SCRIPT@
            + "\n"@,
        SupportedShells::Zsh => "source <(COMPLETE=zsh jj-work)"@ + "\n"@ + "\n"@ + SH_SCRIPT@
            + "\n"@,
    }
}

impl SupportedShells {
    /// Writes the shell integration script of this shell to `writer`.
    pub fn write_script(&self, writer: &mut String)
        ensures
            final(writer)@ == old(writer)@ + script_spec(*self),
    {
        match self {
            SupportedShells::Fish => {
                writer.append(FISH_SCRIPT);
                writer.append("\n");
            },
            SupportedShells::Bash => {
                writer.append("source <(COMPLETE=bash jj-work)");
                writer.append("\n");
                writer.append("\n");
                writer.append(SH_SCRIPT);
                writer.append("\n");
            },
            SupportedShells::Zsh => {
                writer.append("source <(COMPLETE=zsh jj-work)");
                writer.append("\n");
                writer.append("\n");
                writer.append(SH_SCRIPT);
                writer.append("\n");
            },
        }
    }
}

/// The arguments of `jj-work path`: print the path to a workspace or to the
/// repo root.
#[derive(Debug)]
pub struct PathArgs {
    /// Name of the workspace; without one, the repo root is meant.
    pub workspace_name: Option<String>,
    /// Use where the workspace would be, whether or not it is there.
    pub allow_missing: bool,
    /// Create the workspace where it is missing.
    pub create_if_missing: bool,
    /// Revisions for a workspace that is created.
    pub revision: Vec<String>,
}

/// The commands of `jj-work`.
#[derive(Debug)]
pub enum Commands {
    /// Add a new workspace
    Add { workspace_name: String, revision: Vec<String> },
    /// Remove a workspace, trying to do it safely
    Delete { workspace_name: String },
    /// Print the path to a workspace or to the repo root
    Path(PathArgs),
    /// List valid workspaces in the vault
    List,
    /// Print config and environment debug info
    Debug,
    /// The command called by the `jw` shell function
    JWCommand { args: PathArgs, help: bool },
    /// Output the README to the standard output
    Docs,
    /// Install `jj-work`'s shell integration into your shell
    ShellIntegration { shell: SupportedShells },
}

/// A command line of `jj-work`.
#[derive(Debug)]
pub struct Cli {
    pub command: Commands,
}

/// What a command that needs no repository does.
#[derive(Debug)]
pub enum EarlyAction {
    /// Write the integration script of this shell to the standard output.
    WriteShellScript(SupportedShells),
    /// Print the README.
    PrintDocs,
    /// Print the help of the `jw` function to the standard error and exit
    /// with status 1, so that `jw` stays where it is.
    ShowJwHelp,
}

/// What a command that works in a repository does.
#[derive(Debug)]
pub enum EnvAction {
    CreateWorkspace { workspace_name: String, revision: Vec<String> },
    DeleteWorkspace { workspace_name: String },
    Path(PathArgs),
    List,
    Debug,
}

/// How a command line is carried out.
#[derive(Debug)]
pub enum Dispatch {
    /// Without looking for a repository.
    Early(EarlyAction),
    /// In the repository of the current directory.
    WithEnv(EnvAction),
}

/// The commands that work outside a repository.
pub open spec fn needs_no_repo(command: Commands) -> bool {
    match command {
        Commands::ShellIntegration { .. } | Commands::Docs => true,
        Commands::JWCommand { help, .. } => help,
        _ => false,
    }
}

/// How `command` is carried out.
pub open spec fn dispatch_spec(command: Commands) -> Dispatch {
    match command {
        Commands::ShellIntegration { shell } => Dispatch::Early(
            EarlyAction::WriteShellScript(shell),
        ),
        Commands::Docs => Dispatch::Early(EarlyAction::PrintDocs),
        Commands::JWCommand { args, help } => if help {
            Dispatch::Early(EarlyAction::ShowJwHelp)
        } else {
            Dispatch::WithEnv(EnvAction::Path(args))
        },
        Commands::Add { workspace_name, revision } => Dispatch::WithEnv(
            EnvAction::CreateWorkspace { workspace_name, revision },
        ),
        Commands::Delete { workspace_name } => Dispatch::WithEnv(
            EnvAction::DeleteWorkspace { workspace_name },
        ),
        Commands::Path(args) => Dispatch::WithEnv(EnvAction::Path(args)),
        Commands::List => Dispatch::WithEnv(EnvAction::List),
        Commands::Debug => Dispatch::WithEnv(EnvAction::Debug),
    }
}

/// Decides how the command line is carried out: the shell integration, the
/// docs and the help of `jw` need no repository; every other command runs
/// in the repository of the current directory, with `jw-command` standing
/// for `path`.
pub fn dispatch(cli: Cli) -> (r: Dispatch)
    ensures
        r == dispatch_spec(cli.command),
        r is Early <==> needs_no_repo(cli.command),
        cli.command matches Commands::ShellIntegration { shell } ==> r == Dispatch::Early(
            EarlyAction::WriteShellScript(shell),
        ),
        cli.command matches Commands::Path(args) ==> r == Dispatch::WithEnv(EnvAction::Path(args)),
        cli.command matches Commands::JWCommand { args, help } ==> (if help {
            r == Dispatch::Early(EarlyAction::ShowJwHelp)
        } else {
            r == Dispatch::WithEnv(EnvAction::Path(args))
        }),
        cli.command matches Commands::Add { workspace_name, revision } ==> r == Dispatch::WithEnv(
            EnvAction::CreateWorkspace { workspace_name, revision },
        ),
        cli.command matches Commands::Delete { workspace_name } ==> r == Dispatch::WithEnv(
            EnvAction::DeleteWorkspace { workspace_name },
        ),
        cli.command is Docs ==> r == Dispatch::Early(EarlyAction::PrintDocs),
        cli.command is List ==> r == Dispatch::WithEnv(EnvAction::List),
        cli.command is Debug ==> r == Dispatch::WithEnv(EnvAction::Debug),
{
    match cli.command {
        Commands::ShellIntegration { shell } => Dispatch::Early(
            EarlyAction::WriteShellScript(shell),
        ),
        Commands::Docs => Dispatch::Early(EarlyAction::PrintDocs),
        Commands::JWCommand { args, help } => if help {
            Dispatch::Early(EarlyAction::ShowJwHelp)
        } else {
            Dispatch::WithEnv(EnvAction::Path(args))
        },
        Commands::Add { workspace_name, revision } => Dispatch::WithEnv(
            EnvAction::CreateWorkspace { workspace_name, revision },
        ),
        Commands::Delete { workspace_name } => Dispatch::WithEnv(
            EnvAction::DeleteWorkspace { workspace_name },
        ),
        Commands::Path(args) => Dispatch::WithEnv(EnvAction::Path(args)),
        Commands::List => Dispatch::WithEnv(EnvAction::List),
        Commands::Debug => Dispatch::WithEnv(EnvAction::Debug),
    }
}

/// `jj-work shell-integration SHELL` writes the script of the shell asked
/// for, and no other, for every shell.
pub proof fn lemma_shell_integration_writes_that_shell(shell: SupportedShells)
    ensures
        dispatch_spec(Commands::ShellIntegration { shell }) == Dispatch::Early(
            EarlyAction::WriteShellScript(shell),
        ),
        shell == SupportedShells::Fish ==> script_spec(shell) == FISH_SCRIPT@ + "\n"@,
{
}

/// `jw ARGS` (`jj-work jw-command ARGS` without `--help`) and `jj-work path
/// ARGS` both run `path` in the repository with the arguments as given,
/// every field kept: the name, `--allow-missing`, `--create-if-missing` and
/// the revisions.
pub proof fn lemma_jw_command_is_path(args: PathArgs)
    ensures
        dispatch_spec(Commands::JWCommand { args, help: false }) matches Dispatch::WithEnv(
            EnvAction::Path(a),
        ) && a.workspace_name == args.workspace_name && a.allow_missing == args.allow_missing
            && a.create_if_missing == args.create_if_missing && a.revision == args.revision,
        dispatch_spec(Commands::Path(args)) matches Dispatch::WithEnv(EnvAction::Path(a))
            && a.workspace_name == args.workspace_name && a.allow_missing == args.allow_missing
            && a.create_if_missing == args.create_if_missing && a.revision == args.revision,
{
}

/// The next step of `jj-work path`.
#[derive(Debug)]
pub enum PathStep {
    /// Print this line; the command is done.
    PrintLine(String),
    /// Check whether the workspace of this name is valid, and decide again.
    CheckWorkspace(String),
    /// Create the workspace on these revisions, then print its path.
    CreateThenPrint { workspace_name: String, revision: Vec<String>, path: String },
    /// The command fails.
    Fail(EnvError),
}

/// Decides the next step of `jj-work path` in `env`, given the outcome of
/// the validity check of the named workspace where there was one. Without a
/// name, the repo root is printed. With `--allow-missing` or a valid
/// workspace, its path is printed. A workspace that is not valid is created
/// with `--create-if-missing` and is an error otherwise; a name that is not a
/// single path component is never valid, and is never created.
pub fn path_command(env: &Environment, args: &PathArgs, validity: Option<bool>) -> (r: PathStep)
    ensures
        match args.workspace_name {
            None => r matches PathStep::PrintLine(t) && t@ == env.spec_repo_root(),
            Some(n) => if args.allow_missing || validity == Some(true) {
                r matches PathStep::PrintLine(t) && t@ == env.path_spec(n@)
            } else if validity is None {
                r matches PathStep::CheckWorkspace(m) && m@ == n@
            } else if args.create_if_missing && is_single_component(n@) {
                &&& r matches PathStep::CreateThenPrint { workspace_name, revision, path }
                &&& workspace_name@ == n@
                &&& revision.deep_view() == args.revision.deep_view()
                &&& path@ == env.path_spec(n@)
            } else {
                r matches PathStep::Fail(EnvError::WorkspaceMissing { name }) && name@ == n@
            },
        },
{
    match &args.workspace_name {
        None => PathStep::PrintLine(env.repo_root().clone()),
        Some(name) => {
            if args.allow_missing {
                return PathStep::PrintLine(env.path(name.as_str()));
            }
            match validity {
                None => PathStep::CheckWorkspace(name.clone()),
                Some(true) => PathStep::PrintLine(env.path(name.as_str())),
                Some(false) => {
                    if args.create_if_missing && single_component(name.as_str()) {
                        PathStep::CreateThenPrint {
                            workspace_name: name.clone(),
                            revision: clone_strings(&args.revision),
                            path: env.path(name.as_str()),
                        }
                    } else {
                        PathStep::Fail(EnvError::WorkspaceMissing { name: name.clone() })
                    }
                },
            }
        },
    }
}

} // verus!
