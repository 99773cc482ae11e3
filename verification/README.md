# jj-work

`jj-work` manages [`jj`](https://jj-vcs.dev) workspaces. A `jj-work`
workspace is an ordinary `jj` workspace in a child directory of the repo's
vault (by default `.jj/jj-work` under the repo root), named after that
directory.

Commands:

- `jj-work add NAME [-r REVSETS]...` creates the workspace `NAME` (a single
  path component; at most two revisions), and links the paths of the `paths_to_symlink` setting back to
  the main repo.
- `jj-work delete NAME` brings a valid workspace up to date, clears its
  files, forgets it, removes its `.jj` directory and the links that `add`
  made.
- `jj-work path [NAME]` prints where a workspace is, or the repo root.
- `jj-work list` prints the valid workspaces of the vault.
- `jj-work shell-integration fish|bash|zsh` prints the `jw` shell function,
  which changes to the directory that `jj-work path` prints.

Settings are read from the `x.jj-work` table of jj's config, over the
defaults (`vault_dir = ".jj/jj-work"`, `paths_to_symlink = []`, no
`command`s), so configuring `jj-work` is optional; keys that are not settings
are refused. For example:

```bash
jj config set --repo 'x.jj-work.paths_to_symlink = ["target", ".vscode/settings.json"]'
```

`paths_to_symlink` may also be a table whose values are paths or lists of
paths; all its values are used.

## Layout

- `src/`: the library, verified with Verus: paths, settings and their
  reading from jj's config, the environment of a repository and the
  decisions of each command.
- `tests/`: tests of the library.
- `app/`: the `jj-work` program: the command line, running `jj`, and the
  file system.
