//! The repository that `jj-work` works in, and what it derives from it:
//! the repo root, the vault, workspace paths, and the steps to create,
//! check, list and delete workspaces.

use vstd::prelude::*;

use crate::path::{
    ends_in_dot_component, lemma_last_slash_after, lemma_trim_end_fixed, lemma_trim_start_fixed,
    plain_file_name, plain_parent,
    is_absolute, lemma_join_absolute, lemma_join_keeps_absolute, lemma_join_relative,
    file_name, join, join_spec, parent, same_path, std_path_eq, std_path_file_name, std_path_parent,
    trim, trim_spec,
};
use crate::settings::Settings;
use crate::text::{debug_option_i32, debug_path, option_i32_debug, std_debug_path};

verus! {

/// Errors in finding the repository or in managing its workspaces.
#[derive(Debug)]
pub enum EnvError {
    /// `.jj/repo` is a file that could not be read, for this cause.
    ReadFailed { path: String, cause: String },
    /// The repo dir has no grandparent, so there is no repo root.
    NoRepoRoot { repo_dir: String },
    /// The current workspace root has no final component to name it by.
    NoWorkspaceName { workspace_root: String },
    /// More than two revisions were given for a new workspace.
    TooManyRevisions,
    /// No valid workspace of this name is in the vault.
    WorkspaceMissing { name: String },
    /// A workspace was to be created under a name that is not a single
    /// component of a path, so it would not be a child of the vault.
    InvalidWorkspaceName { name: String },
    /// `jj workspace update-stale` did not succeed.
    UpdateStaleFailed { code: Option<i32> },
}

/// What a look at `.jj/repo` under a workspace root found.
#[derive(Debug)]
pub enum RepoFile {
    /// It is not a file: in the main repo it is the repo directory itself.
    NotAFile,
    /// It is a file with these contents: the path of the repo directory.
    Contents(String),
    /// It is a file that could not be read, for this cause.
    Unreadable(String),
}

/// The text of `file`, where it is a readable file.
pub open spec fn repo_file_contents(file: RepoFile) -> Option<Seq<char>> {
    match file {
        RepoFile::Contents(c) => Some(c@),
        _ => None,
    }
}

/// Where jj keeps the repo pointer of the workspace rooted at `ws`.
pub open spec fn jj_repo_path_spec(ws: Seq<char>) -> Seq<char> {
    join_spec(ws, ".jj/repo"@)
}

/// The repo directory of the workspace rooted at `ws`: the trimmed contents
/// of `.jj/repo` where that is a file, else `.jj/repo` itself.
pub open spec fn repo_dir_spec(ws: Seq<char>, contents: Option<Seq<char>>) -> Seq<char> {
    match contents {
        Some(c) => trim_spec(c),
        None => jj_repo_path_spec(ws),
    }
}

/// The parent of the parent of `p`.
pub open spec fn grandparent(p: Seq<char>) -> Option<Seq<char>> {
    match std_path_parent(p) {
        Some(q) => std_path_parent(q),
        None => None,
    }
}

/// The repo root of the workspace rooted at `ws`, where there is one: two
/// levels above its repo directory.
pub open spec fn repo_root_spec(ws: Seq<char>, file: RepoFile) -> Option<Seq<char>> {
    match file {
        RepoFile::Unreadable(_) => None,
        _ => grandparent(repo_dir_spec(ws, repo_file_contents(file))),
    }
}

/// `e` is the error reported when the workspace rooted at `ws` yields no
/// repo root.
pub open spec fn repo_root_error(ws: Seq<char>, file: RepoFile, e: EnvError) -> bool {
    match file {
        RepoFile::Unreadable(cause) => e matches EnvError::ReadFailed { path, cause: c } && path@
            == jj_repo_path_spec(ws) && c@ == cause@,
        _ => e matches EnvError::NoRepoRoot { repo_dir } && repo_dir@ == repo_dir_spec(
            ws,
            repo_file_contents(file),
        ),
    }
}

/// A name that is one ordinary component of a path: not empty, without `/`,
/// and neither `.` nor `..`. Only such a name names a child of the vault.
pub open spec fn is_single_component(name: Seq<char>) -> bool {
    &&& name.len() > 0
    &&& !name.contains('/')
    &&& name != seq!['.']
    &&& name != seq!['.', '.']
}

/// Every name but the empty one, `.`, `..` and those holding `/` is one
/// component of a path, so it names a child of the vault.
pub proof fn lemma_only_paths_are_refused(name: Seq<char>)
    ensures
        is_single_component(name) <==> (name.len() > 0 && !name.contains('/') && name != seq!['.']
            && name != seq!['.', '.']),
{
}

/// Whether `name` is one ordinary component of a path.
pub fn single_component(name: &str) -> (r: bool)
    ensures
        r == is_single_component(name@),
        r <==> (name@.len() > 0 && !name@.contains('/') && name@ != seq!['.'] && name@ != seq![
            '.',
            '.',
        ]),
{
    let n = name.unicode_len();
    if n == 0 {
        return false;
    }
    let mut i: usize = 0;
    while i < n
        invariant
            n == name@.len(),
            i <= n,
            forall|k: int| 0 <= k < i ==> name@[k] != '/',
        decreases n - i,
    {
        if name.get_char(i) == '/' {
            assert(name@.contains('/'));
            return false;
        }
        i = i + 1;
    }
    if n == 1 && name.get_char(0) == '.' {
        assert(name@ =~= seq!['.']);
        return false;
    }
    if n == 2 && name.get_char(0) == '.' && name.get_char(1) == '.' {
        assert(name@ =~= seq!['.', '.']);
        return false;
    }
    assert(name@ != seq!['.']) by {
        if name@ == seq!['.'] {
            assert(name@[0] == '.');
        }
    }
    assert(name@ != seq!['.', '.']) by {
        if name@ == seq!['.', '.'] {
            assert(name@[0] == '.' && name@[1] == '.');
        }
    }
    true
}

/// Two levels above `d`, as its text shows, where that text is plain.
pub open spec fn plain_grandparent(d: Seq<char>) -> Option<Seq<char>> {
    match plain_parent(d) {
        Some(q) => plain_parent(q),
        None => None,
    }
}

/// A repo root whose text is plain: the root directory `/` itself, or
/// absolute and not ending in `/` or in a `.` component.
pub open spec fn is_plain_root(root: Seq<char>) -> bool {
    ||| root == seq!['/']
    ||| is_absolute(root) && root.last() != '/' && !ends_in_dot_component(root)
}

/// `file` is a `.jj/repo` file that points to the repo at `root`, as jj
/// writes it into a new workspace: the absolute path of `root`'s
/// `.jj/repo`.
pub open spec fn points_to_repo(file: RepoFile, root: Seq<char>) -> bool {
    file matches RepoFile::Contents(c) && c@ == jj_repo_path_spec(root)
}

/// The pointer jj writes for a plain repo root reads back, through `trim` and
/// two parents, as that root.
pub proof fn lemma_pointer_reads_back(root: Seq<char>)
    requires
        is_plain_root(root),
    ensures
        trim_spec(jj_repo_path_spec(root)) == jj_repo_path_spec(root),
        plain_grandparent(jj_repo_path_spec(root)) == Some(root),
{
    reveal_strlit(".jj/repo");
    let jj = seq!['.', 'j', 'j'];
    let repo = seq!['r', 'e', 'p', 'o'];
    let p = jj_repo_path_spec(root);
    assert(".jj/repo"@ =~= jj + seq!['/'] + repo);
    assert(!repo.contains('/')) by {
        if repo.contains('/') {
            let i = choose|i: int| 0 <= i < repo.len() && repo[i] == '/';
        }
    }
    assert(!jj.contains('/')) by {
        if jj.contains('/') {
            let i = choose|i: int| 0 <= i < jj.len() && jj[i] == '/';
        }
    }
    assert(repo != seq!['.'] && repo != seq!['.', '.']) by {
        assert(repo.len() == 4);
    }
    assert(jj != seq!['.'] && jj != seq!['.', '.']) by {
        assert(jj.len() == 3);
    }
    if root == seq!['/'] {
        let e = Seq::<char>::empty();
        assert(p =~= (e + seq!['/'] + jj) + seq!['/'] + repo);
        let q = e + seq!['/'] + jj;
        lemma_last_slash_after(q, repo);
        lemma_last_slash_after(e, jj);
        assert(p.subrange(0, q.len() as int) =~= q);
        assert(p.subrange(q.len() as int + 1, p.len() as int) =~= repo);
        assert(q.subrange(1, q.len() as int) =~= jj);
        assert(p[0] == '/');
        assert(q[0] == '/');
        assert(p[q.len() - 1] == 'j');
        assert(plain_parent(p) == Some(q));
        assert(plain_parent(q) == Some(root));
    } else {
        assert(p =~= (root + seq!['/'] + jj) + seq!['/'] + repo);
        let q = root + seq!['/'] + jj;
        lemma_last_slash_after(q, repo);
        lemma_last_slash_after(root, jj);
        assert(p.subrange(0, q.len() as int) =~= q);
        assert(p.subrange(q.len() as int + 1, p.len() as int) =~= repo);
        assert(q.subrange(0, root.len() as int) =~= root);
        assert(q.subrange(root.len() as int + 1, q.len() as int) =~= jj);
        assert(p[0] == '/');
        assert(q[0] == '/');
        assert(plain_parent(p) == Some(q));
        assert(plain_parent(q) == Some(root));
    }
    lemma_trim_start_fixed(p);
    lemma_trim_end_fixed(p);
}

/// The path of `.jj/repo` under the workspace root `workspace_root`.
pub fn jj_repo_path(workspace_root: &str) -> (r: String)
    ensures
        r@ == jj_repo_path_spec(workspace_root@),
{
    join(workspace_root, ".jj/repo")
}

/// The repo root of the workspace rooted at `workspace_root`, given what is
/// at its `.jj/repo`. In a secondary workspace that file holds the path of
/// the repo directory; in the main repo it is the repo directory.
pub fn get_repo_root(workspace_root: &str, repo_file: &RepoFile) -> (r: Result<String, EnvError>)
    ensures
        match r {
            Ok(root) => repo_root_spec(workspace_root@, *repo_file) == Some(root@),
            Err(e) => repo_root_spec(workspace_root@, *repo_file) is None && repo_root_error(
                workspace_root@,
                *repo_file,
                e,
            ),
        },
        !(*repo_file is Unreadable) && plain_grandparent(
            repo_dir_spec(workspace_root@, repo_file_contents(*repo_file)),
        ) is Some ==> r is Ok && r->Ok_0@ == plain_grandparent(
            repo_dir_spec(workspace_root@, repo_file_contents(*repo_file)),
        )->0,
        is_plain_root(workspace_root@) && *repo_file is NotAFile ==> (r matches Ok(root) && root@
            == workspace_root@),
        forall|root: Seq<char>|
            is_plain_root(root) && #[trigger] points_to_repo(*repo_file, root) ==> (r matches Ok(
                g,
            ) && g@ == root),
{
    proof {
        if is_plain_root(workspace_root@) {
            lemma_pointer_reads_back(workspace_root@);
        }
        assert forall|root: Seq<char>|
            is_plain_root(root) && #[trigger] points_to_repo(*repo_file, root) implies plain_grandparent(
            repo_dir_spec(workspace_root@, repo_file_contents(*repo_file)),
        ) == Some(root) by {
            lemma_pointer_reads_back(root);
        }
    }
    let jj_repo = jj_repo_path(workspace_root);
    let repo_dir: String = match repo_file {
        RepoFile::Unreadable(cause) => {
            return Err(EnvError::ReadFailed { path: jj_repo, cause: cause.clone() });
        },
        RepoFile::Contents(c) => String::from_str(trim(c.as_str())),
        RepoFile::NotAFile => jj_repo,
    };
    match parent(repo_dir.as_str()) {
        Some(p) => match parent(p.as_str()) {
            Some(root) => Ok(root),
            None => Err(EnvError::NoRepoRoot { repo_dir }),
        },
        None => Err(EnvError::NoRepoRoot { repo_dir }),
    }
}

/// A symbolic link between a workspace and the main repo.
#[derive(Debug)]
pub struct Symlink {
    /// What the link points to, in the main repo.
    pub source: String,
    /// Where the link is, in the workspace.
    pub dest: String,
}

/// What was found in one entry of the vault directory.
#[derive(Debug)]
pub struct VaultEntry {
    /// The entry's file name, where it has a Unicode one.
    pub name: Option<String>,
    /// Whether the entry holds a `.jj` directory.
    pub has_jj_dir: bool,
    /// What is at the entry's `.jj/repo`.
    pub repo_file: RepoFile,
}

/// The environment `jj-work` runs in: the settings and the repository.
#[derive(Debug)]
pub struct Environment {
    pub config: Settings,
    repo_root: String,
    _current_dir: String,
    _current_workspace_root: String,
    _current_workspace_name: Option<String>,
}

/// The revision words of `jj workspace add`: `-r` before each revision.
pub open spec fn revision_args(revisions: Seq<Seq<char>>) -> Seq<Seq<char>>
    decreases revisions.len(),
{
    if revisions.len() == 0 {
        Seq::empty()
    } else {
        revision_args(revisions.drop_last()) + seq!["-r"@, revisions.last()]
    }
}

/// The arguments of `jj` that add a workspace at `path` on `revisions`;
/// `None` where more than two revisions are given.
pub open spec fn add_args_spec(path: Seq<char>, revisions: Seq<Seq<char>>) -> Option<
    Seq<Seq<char>>,
> {
    if revisions.len() > 2 {
        None
    } else {
        Some(seq!["workspace"@, "add"@] + revision_args(revisions) + seq![path])
    }
}

impl Environment {
    /// The settings: the value of the public field `config`. The body is
    /// closed, as the other fields are private; `config()` reads the field
    /// with this as its contract.
    pub closed spec fn spec_config(&self) -> Settings {
        self.config
    }

    /// The settings held in the field `config`.
    pub fn config(&self) -> (r: &Settings)
        ensures
            *r == self.spec_config(),
    {
        &self.config
    }

    /// The repo root.
    pub closed spec fn spec_repo_root(&self) -> Seq<char> {
        self.repo_root@
    }

    /// The directory `jj-work` was started in.
    pub closed spec fn spec_current_dir(&self) -> Seq<char> {
        self._current_dir@
    }

    /// The root of the workspace `jj-work` was started in.
    pub closed spec fn spec_workspace_root(&self) -> Seq<char> {
        self._current_workspace_root@
    }

    /// The name of the workspace `jj-work` was started in; `None` in the
    /// main repo.
    pub closed spec fn spec_workspace_name(&self) -> Option<Seq<char>> {
        match self._current_workspace_name {
            Some(n) => Some(n@),
            None => None,
        }
    }

    /// The vault: the settings' vault dir, relative to the repo root.
    pub open spec fn vault_dir_spec(&self) -> Seq<char> {
        join_spec(self.spec_repo_root(), self.spec_config().vault_dir@)
    }

    /// Where the workspace `name` is: the directory of that name in the vault.
    pub open spec fn path_spec(&self, name: Seq<char>) -> Seq<char> {
        join_spec(self.vault_dir_spec(), name)
    }

    /// The directory a shell is in after changing to the workspace `name`
    /// from the directory `jj-work` was started in.
    pub open spec fn workspace_dir_spec(&self, name: Seq<char>) -> Seq<char> {
        join_spec(self.spec_current_dir(), self.path_spec(name))
    }

    /// Whether `name` is a valid workspace of this repo, given what is at
    /// its directory: it names a child of the vault, that directory holds a
    /// `.jj` directory, and the repo root found from it is this repo root.
    /// `None` where looking fails.
    pub open spec fn validity_spec(&self, name: Seq<char>, has_jj_dir: bool, file: RepoFile) -> Option<
        bool,
    > {
        if !is_single_component(name) || !has_jj_dir {
            Some(false)
        } else {
            match repo_root_spec(self.workspace_dir_spec(name), file) {
                Some(c) => Some(std_path_eq(c, self.spec_repo_root())),
                None => None,
            }
        }
    }

    /// `e` is an entry of the vault named by one path component, holding
    /// `.jj`, whose `.jj/repo` is the pointer that jj writes into a new
    /// workspace of this repo (with a plain repo root).
    pub open spec fn holds_new_workspace(&self, e: VaultEntry) -> bool {
        &&& e.name matches Some(n)
        &&& is_single_component(n@)
        &&& e.has_jj_dir
        &&& is_plain_root(self.spec_repo_root())
        &&& points_to_repo(e.repo_file, self.spec_repo_root())
    }

    /// The names of the valid workspaces among `entries`, in order.
    pub open spec fn listed_spec(&self, entries: Seq<VaultEntry>) -> Seq<Seq<char>>
        decreases entries.len(),
    {
        if entries.len() == 0 {
            Seq::empty()
        } else {
            let e = entries.last();
            let rest = self.listed_spec(entries.drop_last());
            match e.name {
                Some(n) => if self.validity_spec(n@, e.has_jj_dir, e.repo_file) == Some(true) {
                    rest.push(n@)
                } else {
                    rest
                },
                None => rest,
            }
        }
    }

    /// The environment of the workspace rooted at `workspace_root`, given
    /// what is at its `.jj/repo` and the directory `jj-work` runs in. In a
    /// secondary workspace, its name is the final component of its root.
    pub fn new(config: Settings, workspace_root: String, repo_file: RepoFile, current_dir: String) -> (r:
        Result<Self, EnvError>)
        ensures
            match r {
                Ok(env) => {
                    &&& repo_root_spec(workspace_root@, repo_file) == Some(env.spec_repo_root())
                    &&& env.spec_config() == config
                    &&& env.spec_current_dir() == current_dir@
                    &&& env.spec_workspace_root() == workspace_root@
                    &&& if std_path_eq(env.spec_repo_root(), workspace_root@) {
                        env.spec_workspace_name() is None
                    } else {
                        env.spec_workspace_name() == std_path_file_name(workspace_root@)
                            && env.spec_workspace_name() is Some
                    }
                },
                Err(e) => match repo_root_spec(workspace_root@, repo_file) {
                    None => repo_root_error(workspace_root@, repo_file, e),
                    Some(root) => {
                        &&& !std_path_eq(root, workspace_root@)
                        &&& std_path_file_name(workspace_root@) is None
                        &&& e matches EnvError::NoWorkspaceName { workspace_root: w }
                        &&& w@ == workspace_root@
                    },
                },
            },
            is_plain_root(workspace_root@) && repo_file is NotAFile ==> (r matches Ok(env)
                && env.spec_repo_root() == workspace_root@ && env.spec_workspace_name() is None),
            forall|root: Seq<char>|
                is_plain_root(root) && #[trigger] points_to_repo(repo_file, root) ==> (r matches Ok(
                    env,
                ) ==> env.spec_repo_root() == root) && (plain_file_name(workspace_root@) is Some
                    ==> r is Ok),
            r matches Ok(env) ==> (env.spec_workspace_name() matches Some(n) ==> (plain_file_name(
                workspace_root@,
            ) is Some ==> n == plain_file_name(workspace_root@)->0)),
    {
        let repo_root = match get_repo_root(workspace_root.as_str(), &repo_file) {
            Ok(root) => root,
            Err(e) => {
                return Err(e);
            },
        };
        let name = if !same_path(repo_root.as_str(), workspace_root.as_str()) {
            match file_name(workspace_root.as_str()) {
                Some(n) => Some(n),
                None => {
                    return Err(EnvError::NoWorkspaceName { workspace_root });
                },
            }
        } else {
            None
        };
        Ok(
            Environment {
                config,
                repo_root,
                _current_dir: current_dir,
                _current_workspace_root: workspace_root,
                _current_workspace_name: name,
            },
        )
    }

    /// The directory `jj-work` was started in.
    pub fn current_dir(&self) -> (r: &String)
        ensures
            r@ == self.spec_current_dir(),
    {
        &self._current_dir
    }

    /// The root of the workspace `jj-work` was started in.
    pub fn current_workspace_root(&self) -> (r: &String)
        ensures
            r@ == self.spec_workspace_root(),
    {
        &self._current_workspace_root
    }

    /// The name of the workspace `jj-work` was started in; `None` in the main
    /// repo.
    pub fn current_workspace_name(&self) -> (r: Option<&String>)
        ensures
            match r {
                Some(n) => self.spec_workspace_name() == Some(n@),
                None => self.spec_workspace_name() is None,
            },
    {
        match &self._current_workspace_name {
            Some(n) => Some(n),
            None => None,
        }
    }

    /// The repo root.
    pub fn repo_root(&self) -> (r: &String)
        ensures
            r@ == self.spec_repo_root(),
    {
        &self.repo_root
    }

    /// The vault: the settings' vault dir, relative to the repo root.
    pub fn vault_dir(&self) -> (r: String)
        ensures
            r@ == self.vault_dir_spec(),
    {
        join(self.repo_root.as_str(), self.config.vault_dir.as_str())
    }

    /// Where the workspace `name` is, whether or not it exists.
    pub fn path(&self, name: &str) -> (r: String)
        ensures
            r@ == self.path_spec(name@),
    {
        let vault = self.vault_dir();
        join(vault.as_str(), name)
    }

    /// The directory a shell is in after changing to the workspace `name`.
    pub fn workspace_dir(&self, name: &str) -> (r: String)
        ensures
            r@ == self.workspace_dir_spec(name@),
    {
        let p = self.path(name);
        join(self._current_dir.as_str(), p.as_str())
    }

    /// Whether `name` is a valid workspace of this repo, given whether its
    /// directory holds `.jj` and what is at its `.jj/repo`.
    pub fn is_valid_workspace(&self, name: &str, has_jj_dir: bool, repo_file: &RepoFile) -> (r:
        Result<bool, EnvError>)
        ensures
            !is_single_component(name@) ==> r matches Ok(false),
            has_jj_dir && is_single_component(name@) && is_plain_root(self.spec_repo_root())
                && points_to_repo(*repo_file, self.spec_repo_root()) ==> r matches Ok(true),
            match r {
                Ok(b) => self.validity_spec(name@, has_jj_dir, *repo_file) == Some(b),
                Err(e) => self.validity_spec(name@, has_jj_dir, *repo_file) is None
                    && repo_root_error(self.workspace_dir_spec(name@), *repo_file, e),
            },
    {
        if !single_component(name) || !has_jj_dir {
            return Ok(false);
        }
        let dir = self.workspace_dir(name);
        proof {
            if is_plain_root(self.spec_repo_root()) && points_to_repo(*repo_file, self.spec_repo_root()) {
                lemma_pointer_reads_back(self.spec_repo_root());
            }
        }
        match get_repo_root(dir.as_str(), repo_file) {
            Ok(candidate) => Ok(same_path(candidate.as_str(), self.repo_root.as_str())),
            Err(e) => Err(e),
        }
    }

    /// The arguments of `jj` that add the workspace `name` on `revisions`.
    /// At most two revisions are supported.
    pub fn workspace_add_args(&self, name: &str, revisions: &Vec<String>) -> (r: Result<
        Vec<String>,
        EnvError,
    >)
        ensures
            match r {
                Ok(args) => add_args_spec(self.path_spec(name@), revisions.deep_view()) == Some(
                    args.deep_view(),
                ),
                Err(e) => add_args_spec(self.path_spec(name@), revisions.deep_view()) is None
                    && e is TooManyRevisions,
            },
    {
        let n = revisions.len();
        if n > 2 {
            return Err(EnvError::TooManyRevisions);
        }
        let workspace_path = self.path(name);
        let mut args: Vec<String> = Vec::new();
        args.push(String::from_str("workspace"));
        args.push(String::from_str("add"));
        let ghost revs = revisions.deep_view();
        assert(revision_args(revs.take(0)) =~= Seq::<Seq<char>>::empty());
        assert(args.deep_view() =~= seq!["workspace"@, "add"@]);
        let mut i: usize = 0;
        while i < n
            invariant
                n == revisions.len(),
                revs == revisions.deep_view(),
                i <= n,
                args.deep_view() == seq!["workspace"@, "add"@] + revision_args(revs.take(i as int)),
            decreases n - i,
        {
            let ghost prev = args.deep_view();
            args.push(String::from_str("-r"));
            args.push(revisions[i].clone());
            assert(revs.take(i + 1).drop_last() =~= revs.take(i as int));
            assert(args.deep_view() =~= prev + seq!["-r"@, revs[i as int]]);
            assert(args.deep_view() =~= seq!["workspace"@, "add"@] + revision_args(
                revs.take(i + 1),
            ));
            i = i + 1;
        }
        assert(revs.take(n as int) =~= revs);
        let ghost prev = args.deep_view();
        args.push(workspace_path);
        assert(args.deep_view() =~= prev.push(self.path_spec(name@)));
        Ok(args)
    }

    /// The links a new workspace `name` gets: for each configured path, a link
    /// in the workspace to the same path in the repo root.
    pub fn symlinks_to_create(&self, name: &str) -> (r: Vec<Symlink>)
        ensures
            r.len() == self.spec_config().paths_to_symlink.len(),
            forall|i: int|
                0 <= i < r.len() ==> {
                    let p = #[trigger] self.spec_config().paths_to_symlink[i]@;
                    &&& r[i].source@ == join_spec(self.spec_repo_root(), p)
                    &&& r[i].dest@ == join_spec(self.path_spec(name@), p)
                },
    {
        let workspace_path = self.path(name);
        self.links_under(workspace_path.as_str())
    }

    /// The links that deleting the workspace `name` looks for: for each
    /// configured path, its place in the workspace directory and the path in
    /// the repo root that a link made by `jj-work` points to.
    pub fn symlinks_to_remove(&self, name: &str) -> (r: Vec<Symlink>)
        ensures
            r.len() == self.spec_config().paths_to_symlink.len(),
            forall|i: int|
                0 <= i < r.len() ==> {
                    let p = #[trigger] self.spec_config().paths_to_symlink[i]@;
                    &&& r[i].source@ == join_spec(self.spec_repo_root(), p)
                    &&& r[i].dest@ == join_spec(self.workspace_dir_spec(name@), p)
                },
    {
        let dir = self.workspace_dir(name);
        self.links_under(dir.as_str())
    }

    /// For each configured path, a link at that path under `dir` to that path
    /// under the repo root.
    fn links_under(&self, dir: &str) -> (r: Vec<Symlink>)
        ensures
            r.len() == self.spec_config().paths_to_symlink.len(),
            forall|i: int|
                0 <= i < r.len() ==> {
                    let p = #[trigger] self.spec_config().paths_to_symlink[i]@;
                    &&& r[i].source@ == join_spec(self.spec_repo_root(), p)
                    &&& r[i].dest@ == join_spec(dir@, p)
                },
    {
        let paths = &self.config.paths_to_symlink;
        let mut out: Vec<Symlink> = Vec::new();
        let mut i: usize = 0;
        while i < paths.len()
            invariant
                paths == &self.config.paths_to_symlink,
                i <= paths.len(),
                out.len() == i,
                forall|k: int|
                    0 <= k < i ==> {
                        let p = #[trigger] paths[k]@;
                        &&& out[k].source@ == join_spec(self.spec_repo_root(), p)
                        &&& out[k].dest@ == join_spec(dir@, p)
                    },
            decreases paths.len() - i,
        {
            let source = join(self.repo_root.as_str(), paths[i].as_str());
            let dest = join(dir, paths[i].as_str());
            out.push(Symlink { source, dest });
            i = i + 1;
        }
        out
    }

    /// The valid workspaces among the entries of the vault, in order: those
    /// with a Unicode name whose check succeeds and says valid. A check that
    /// fails counts as invalid.
    pub fn list_workspaces(&self, entries: &Vec<VaultEntry>) -> (r: Vec<String>)
        ensures
            r.deep_view() == self.listed_spec(entries@),
            forall|k: int|
                0 <= k < entries.len() && #[trigger] self.holds_new_workspace(entries@[k])
                    ==> r.deep_view().contains(entries@[k].name->0@),
    {
        let mut out: Vec<String> = Vec::new();
        let mut i: usize = 0;
        assert(out.deep_view() =~= self.listed_spec(entries@.take(0)));
        while i < entries.len()
            invariant
                i <= entries.len(),
                out.deep_view() == self.listed_spec(entries@.take(i as int)),
                forall|k: int|
                    0 <= k < i && #[trigger] self.holds_new_workspace(entries@[k])
                        ==> out.deep_view().contains(entries@[k].name->0@),
            decreases entries.len() - i,
        {
            let e = &entries[i];
            assert(entries@.take(i + 1).drop_last() =~= entries@.take(i as int));
            assert(entries@.take(i + 1).last() == entries@[i as int]);
            match &e.name {
                Some(n) => {
                    let valid = match self.is_valid_workspace(n.as_str(), e.has_jj_dir, &e.repo_file) {
                        Ok(b) => b,
                        Err(_) => false,
                    };
                    if valid {
                        let ghost prev = out.deep_view();
                        out.push(n.clone());
                        assert(out.deep_view() =~= prev.push(n@));
                        assert(out.deep_view()[prev.len() as int] == n@);
                        assert forall|k: int|
                            0 <= k < i && #[trigger] self.holds_new_workspace(entries@[k])
                                implies out.deep_view().contains(entries@[k].name->0@) by {
                            let j = choose|j: int| 0 <= j < prev.len() && prev[j] == entries@[k].name->0@;
                            assert(out.deep_view()[j] == prev[j]);
                        }
                    }
                },
                None => {},
            }
            i = i + 1;
        }
        assert(entries@.take(entries.len() as int) =~= entries@);
        out
    }
}

/// `e` is an entry of the vault that `list_workspaces` shows under `n`.
pub open spec fn lists_entry(env: Environment, e: VaultEntry, n: Seq<char>) -> bool {
    &&& e.name matches Some(m)
    &&& m@ == n
    &&& env.validity_spec(n, e.has_jj_dir, e.repo_file) == Some(true)
}

/// `list_workspaces` shows exactly the valid workspaces of the vault: each
/// name it shows is that of an entry whose check says valid, and each such
/// entry's name is shown.
pub proof fn lemma_list_shows_valid_workspaces(env: Environment, entries: Seq<VaultEntry>)
    ensures
        forall|i: int|
            #![trigger env.listed_spec(entries)[i]]
            0 <= i < env.listed_spec(entries).len() ==> exists|k: int|
                0 <= k < entries.len() && lists_entry(
                    env,
                    #[trigger] entries[k],
                    env.listed_spec(entries)[i],
                ),
        forall|k: int, n: Seq<char>|
            0 <= k < entries.len() && #[trigger] lists_entry(env, entries[k], n)
                ==> env.listed_spec(entries).contains(n),
    decreases entries.len(),
{
    if entries.len() > 0 {
        let rest = entries.drop_last();
        lemma_list_shows_valid_workspaces(env, rest);
        let listed = env.listed_spec(entries);
        let listed_rest = env.listed_spec(rest);
        assert forall|i: int| #![trigger listed[i]] 0 <= i < listed.len() implies exists|k: int|
            0 <= k < entries.len() && lists_entry(env, #[trigger] entries[k], listed[i]) by {
            if i < listed_rest.len() {
                assert(listed[i] == listed_rest[i]);
                let k = choose|k: int|
                    0 <= k < rest.len() && lists_entry(env, #[trigger] rest[k], listed_rest[i]);
                assert(entries[k] == rest[k]);
            } else {
                assert(lists_entry(env, entries[entries.len() - 1], listed[i]));
            }
        }
        assert forall|k: int, n: Seq<char>|
            0 <= k < entries.len() && #[trigger] lists_entry(env, entries[k], n) implies listed.contains(
            n,
        ) by {
            if k < rest.len() {
                assert(rest[k] == entries[k]);
                let j = choose|j: int| 0 <= j < listed_rest.len() && listed_rest[j] == n;
                assert(listed[j] == n);
            } else {
                assert(listed[listed.len() - 1] == n);
            }
        }
    }
}

/// A workspace is a child of the vault named after it: a valid workspace has
/// a name that is one component of a path, and its path is the vault, a `/`
/// where the vault does not end in one, and the name.
pub proof fn lemma_workspace_in_vault(env: Environment, name: Seq<char>, has_jj_dir: bool, file: RepoFile)
    requires
        env.validity_spec(name, has_jj_dir, file) == Some(true),
        env.vault_dir_spec().len() > 0,
    ensures
        is_single_component(name),
        env.vault_dir_spec().last() == '/' ==> env.path_spec(name) == env.vault_dir_spec() + name,
        env.vault_dir_spec().last() != '/' ==> env.path_spec(name) == env.vault_dir_spec().push(
            '/',
        ) + name,
{
    assert(!is_absolute(name)) by {
        if is_absolute(name) {
            assert(name.contains(name[0]));
        }
    }
    lemma_join_relative(env.vault_dir_spec(), name);
}

/// `e` is a vault entry with the name `n`.
pub open spec fn entry_named(e: VaultEntry, n: Seq<char>) -> bool {
    e.name matches Some(m) && m@ == n
}

/// `list_workspaces` keeps the order of the vault's entries: the names it
/// shows come from entries in the same order.
pub proof fn lemma_list_keeps_order(env: Environment, entries: Seq<VaultEntry>)
    ensures
        exists|src: Seq<int>|
            #![trigger src.len()]
            src.len() == env.listed_spec(entries).len() && (forall|i: int, j: int|
                0 <= i < j < src.len() ==> src[i] < src[j]) && (forall|i: int|
                #![trigger src[i]]
                0 <= i < src.len() ==> 0 <= src[i] < entries.len() && entry_named(entries[src[i]], env.listed_spec(entries)[i])),
    decreases entries.len(),
{
    if entries.len() == 0 {
        let src = Seq::<int>::empty();
        assert(src.len() == env.listed_spec(entries).len());
    } else {
        let rest = entries.drop_last();
        lemma_list_keeps_order(env, rest);
        let src0 = choose|src: Seq<int>|
            #![trigger src.len()]
            src.len() == env.listed_spec(rest).len() && (forall|i: int, j: int|
                0 <= i < j < src.len() ==> src[i] < src[j]) && (forall|i: int|
                #![trigger src[i]]
                0 <= i < src.len() ==> 0 <= src[i] < rest.len() && entry_named(rest[src[i]], env.listed_spec(rest)[i]));
        let e = entries.last();
        let listed = env.listed_spec(entries);
        if listed.len() == env.listed_spec(rest).len() {
            assert(listed == env.listed_spec(rest));
            assert forall|i: int| #![trigger src0[i]] 0 <= i < src0.len() implies 0 <= src0[i]
                < entries.len() && entry_named(entries[src0[i]], listed[i]) by {
                assert(entries[src0[i]] == rest[src0[i]]);
            }
            assert(src0.len() == listed.len());
        } else {
            let src = src0.push(entries.len() - 1);
            assert forall|i: int| #![trigger src[i]] 0 <= i < src.len() implies 0 <= src[i]
                < entries.len() && entry_named(entries[src[i]], listed[i]) by {
                if i < src0.len() {
                    assert(src[i] == src0[i]);
                    assert(entries[src0[i]] == rest[src0[i]]);
                    assert(listed[i] == env.listed_spec(rest)[i]);
                } else {
                    assert(entries[entries.len() - 1] == e);
                }
            }
            assert forall|i: int, j: int| 0 <= i < j < src.len() implies src[i] < src[j] by {
                if j < src0.len() {
                    assert(src[i] == src0[i] && src[j] == src0[j]);
                } else {
                    assert(src[i] == src0[i]);
                }
            }
            assert(src.len() == listed.len());
        }
    }
}

/// `a` comes before `b` in the order of their characters' code points
/// (which is the byte order of their UTF-8): at the first place where they
/// differ, `a`'s character is the smaller, or `a` is a proper prefix of `b`.
pub open spec fn name_before(a: Seq<char>, b: Seq<char>) -> bool {
    ||| (a.len() < b.len() && b.subrange(0, a.len() as int) == a)
    ||| exists|i: int|
        0 <= i < a.len() && i < b.len() && a.subrange(0, i) == b.subrange(0, i) && (
        #[trigger] a[i] as int) < (b[i] as int)
}

/// Where the vault's entries come in ascending order of name (as the
/// directory read gives them), `list_workspaces` shows names in ascending
/// order.
pub proof fn lemma_list_ascending(env: Environment, entries: Seq<VaultEntry>)
    requires
        forall|a: int, b: int, na: Seq<char>, nb: Seq<char>|
            0 <= a < b < entries.len() && #[trigger] entry_named(entries[a], na) && #[trigger] entry_named(
                entries[b],
                nb,
            ) ==> name_before(na, nb),
    ensures
        forall|i: int, j: int|
            0 <= i < j < env.listed_spec(entries).len() ==> name_before(
                #[trigger] env.listed_spec(entries)[i],
                #[trigger] env.listed_spec(entries)[j],
            ),
{
    lemma_list_keeps_order(env, entries);
    let listed = env.listed_spec(entries);
    let src = choose|src: Seq<int>|
        #![trigger src.len()]
        src.len() == listed.len() && (forall|i: int, j: int|
            0 <= i < j < src.len() ==> src[i] < src[j]) && (forall|i: int|
            #![trigger src[i]]
            0 <= i < src.len() ==> 0 <= src[i] < entries.len() && entry_named(
                entries[src[i]],
                listed[i],
            ));
    assert forall|i: int, j: int| 0 <= i < j < listed.len() implies name_before(
        #[trigger] listed[i],
        #[trigger] listed[j],
    ) by {
        assert(src[i] < src[j]);
        assert(entry_named(entries[src[i]], listed[i]));
        assert(entry_named(entries[src[j]], listed[j]));
    }
}

/// Where the vault's entries have distinct names (as a directory's entries
/// do), `list_workspaces` shows no name twice.
pub proof fn lemma_list_has_no_duplicates(env: Environment, entries: Seq<VaultEntry>)
    requires
        forall|a: int, b: int, n: Seq<char>|
            0 <= a < b < entries.len() && #[trigger] entry_named(entries[a], n) ==> !#[trigger] entry_named(
                entries[b],
                n,
            ),
    ensures
        env.listed_spec(entries).no_duplicates(),
{
    lemma_list_keeps_order(env, entries);
    let listed = env.listed_spec(entries);
    let src = choose|src: Seq<int>|
        #![trigger src.len()]
        src.len() == listed.len() && (forall|i: int, j: int|
            0 <= i < j < src.len() ==> src[i] < src[j]) && (forall|i: int|
            #![trigger src[i]]
            0 <= i < src.len() ==> 0 <= src[i] < entries.len() && entry_named(
                entries[src[i]],
                listed[i],
            ));
    assert forall|i: int, j: int| 0 <= i < listed.len() && 0 <= j < listed.len() && i != j implies listed[i]
        != listed[j] by {
        if i < j {
            assert(src[i] < src[j]);
            assert(entry_named(entries[src[i]], listed[i]));
            assert(entry_named(entries[src[j]], listed[j]));
        } else {
            assert(src[j] < src[i]);
            assert(entry_named(entries[src[i]], listed[i]));
            assert(entry_named(entries[src[j]], listed[j]));
        }
    }
}

/// In a repo with an absolute root, every workspace path is absolute, and a
/// shell that changes to a workspace is in its path, wherever `jj-work` was
/// started.
pub proof fn lemma_workspace_paths_absolute(env: Environment, name: Seq<char>)
    requires
        is_absolute(env.spec_repo_root()),
    ensures
        is_absolute(env.path_spec(name)),
        env.workspace_dir_spec(name) == env.path_spec(name),
{
    lemma_join_keeps_absolute(env.spec_repo_root(), env.spec_config().vault_dir@);
    lemma_join_keeps_absolute(env.vault_dir_spec(), name);
    lemma_join_absolute(env.spec_current_dir(), env.path_spec(name));
}

/// `args`, from `offset` on, holds `-r` and then the `i`-th revision.
pub open spec fn revision_at(args: Seq<Seq<char>>, offset: int, revisions: Seq<Seq<char>>, i: int) -> bool {
    &&& args[offset + 2 * i] == "-r"@
    &&& args[offset + 2 * i + 1] == revisions[i]
}

/// `add` creates the workspace where `path` looks for it: the last argument
/// of `jj workspace add` is the workspace's path, after `-r` and each
/// revision in order.
pub proof fn lemma_add_creates_at_path(env: Environment, name: Seq<char>, revisions: Seq<Seq<char>>)
    requires
        revisions.len() <= 2,
    ensures
        add_args_spec(env.path_spec(name), revisions) matches Some(args) && {
            &&& args.len() == 3 + 2 * revisions.len()
            &&& args[0] == "workspace"@
            &&& args[1] == "add"@
            &&& args.last() == env.path_spec(name)
            &&& forall|i: int|
                0 <= i < revisions.len() ==> #[trigger] revision_at(args, 2, revisions, i)
        },
{
    lemma_revision_args(revisions);
    let ra = revision_args(revisions);
    let args = seq!["workspace"@, "add"@] + ra + seq![env.path_spec(name)];
    assert forall|i: int| 0 <= i < revisions.len() implies #[trigger] revision_at(
        args,
        2,
        revisions,
        i,
    ) by {
        assert(revision_at(ra, 0, revisions, i));
        assert(args[2 + 2 * i] == ra[2 * i]);
        assert(args[2 + 2 * i + 1] == ra[2 * i + 1]);
    }
}

proof fn lemma_revision_args(revisions: Seq<Seq<char>>)
    ensures
        revision_args(revisions).len() == 2 * revisions.len(),
        forall|i: int|
            0 <= i < revisions.len() ==> #[trigger] revision_at(
                revision_args(revisions),
                0,
                revisions,
                i,
            ),
    decreases revisions.len(),
{
    if revisions.len() > 0 {
        let rest = revisions.drop_last();
        lemma_revision_args(rest);
        let ra = revision_args(revisions);
        assert forall|i: int| 0 <= i < revisions.len() implies #[trigger] revision_at(
            ra,
            0,
            revisions,
            i,
        ) by {
            if i < rest.len() {
                assert(revision_at(revision_args(rest), 0, rest, i));
                assert(ra[2 * i] == revision_args(rest)[2 * i]);
                assert(ra[2 * i + 1] == revision_args(rest)[2 * i + 1]);
                assert(rest[i] == revisions[i]);
            }
        }
    }
}

/// Deleting a workspace looks for exactly the links that creating it made:
/// the same targets in the repo root, at the same places, where the
/// workspace path is absolute (as it is under an absolute repo root).
pub proof fn lemma_delete_finds_created_links(env: Environment, name: Seq<char>, p: Seq<char>)
    requires
        is_absolute(env.path_spec(name)),
    ensures
        join_spec(env.workspace_dir_spec(name), p) == join_spec(env.path_spec(name), p),
{
    lemma_join_absolute(env.spec_current_dir(), env.path_spec(name));
}

/// Whether the link `link`, found to point to `target` (`None` where it is
/// not a link with a Unicode target), is one that `jj-work` made: it points
/// to the path in the repo root.
pub fn is_own_symlink(link: &Symlink, target: Option<&str>) -> (r: bool)
    ensures
        r == (target matches Some(t) && std_path_eq(t@, link.source@)),
{
    match target {
        Some(t) => same_path(t, link.source.as_str()),
        None => false,
    }
}

/// What happened last while creating a workspace.
#[derive(Debug)]
pub enum CreateEvent {
    /// Nothing yet.
    Begin,
    /// The vault directory was made (or was there).
    VaultDirMade,
    /// `jj workspace add` succeeded.
    WorkspaceAdded,
    /// The link of this index was made.
    LinkMade(usize),
}

/// The next step in creating a workspace. A step that fails ends the
/// creation with its own error.
#[derive(Debug)]
pub enum CreateStep {
    /// Make this directory, and its parents, from the repo root.
    MakeVaultDir(String),
    /// Run `jj` with these arguments in the repo root.
    AddWorkspace(Vec<String>),
    /// Make the link of this index.
    MakeLink { index: usize, link: Symlink },
    /// The creation ends so.
    Finish(Result<(), EnvError>),
}

/// What happened last while deleting a workspace.
#[derive(Debug)]
pub enum DeleteEvent {
    /// Nothing yet.
    Begin,
    /// The workspace was checked, and found valid or not.
    Checked { valid: bool },
    /// `jj workspace update-stale` ran, and succeeded or not, with this exit
    /// code.
    UpdatedStale { success: bool, code: Option<i32> },
    /// `jj sparse set --clear` succeeded.
    SparseCleared,
    /// `jj workspace forget` succeeded.
    Forgotten,
    /// The workspace's `.jj` directory is gone.
    JjDirRemoved,
    /// The link of this index was read: this is its target, where it is a
    /// link with a Unicode target.
    LinkRead { index: usize, target: Option<String> },
    /// The link of this index was removed.
    LinkRemoved(usize),
}

/// The next step in deleting a workspace. A step that fails ends the
/// deletion with its own error.
#[derive(Debug)]
pub enum DeleteStep {
    /// Check whether the workspace is valid.
    CheckWorkspace,
    /// Run `jj workspace update-stale` in the workspace.
    UpdateStale,
    /// Run `jj sparse set --clear` in the workspace, removing its tracked
    /// files.
    ClearSparse,
    /// Run `jj workspace forget` with this name in the workspace.
    Forget(String),
    /// Remove the workspace's `.jj` directory where it is there.
    RemoveJjDir,
    /// Read the link of this index.
    ReadLink { index: usize, link: Symlink },
    /// Remove the link at this path.
    RemoveLink { index: usize, path: String },
    /// The deletion ends so.
    Finish(Result<(), EnvError>),
}

/// `step` makes the link of index `k` of those of the workspace `name`, or
/// ends the creation where there is none.
pub open spec fn create_link_step(env: Environment, name: Seq<char>, k: int, step: CreateStep) -> bool {
    let paths = env.spec_config().paths_to_symlink;
    if k < paths.len() {
        &&& step matches CreateStep::MakeLink { index, link }
        &&& index == k
        &&& link.source@ == join_spec(env.spec_repo_root(), paths[k]@)
        &&& link.dest@ == join_spec(env.path_spec(name), paths[k]@)
    } else {
        step matches CreateStep::Finish(Ok(()))
    }
}

/// `step` reads the link of index `k` of those of the workspace `name`, or
/// ends the deletion where there is none.
pub open spec fn delete_link_step(env: Environment, name: Seq<char>, k: int, step: DeleteStep) -> bool {
    let paths = env.spec_config().paths_to_symlink;
    if k < paths.len() {
        &&& step matches DeleteStep::ReadLink { index, link }
        &&& index == k
        &&& link.source@ == join_spec(env.spec_repo_root(), paths[k]@)
        &&& link.dest@ == join_spec(env.workspace_dir_spec(name), paths[k]@)
    } else {
        step matches DeleteStep::Finish(Ok(()))
    }
}

impl Environment {
    /// The next step in creating the workspace `name` on `revisions`, after
    /// `event`: make the vault directory, add the workspace with `jj` at its
    /// path (with at most two revisions), then make each configured link. A
    /// name that is not a single path component is refused before anything
    /// is done, as its workspace would not be a child of the vault.
    pub fn create_workspace(&self, name: &str, revisions: &Vec<String>, event: CreateEvent) -> (r:
        CreateStep)
        ensures
            name@.len() > 0 && !name@.contains('/') && name@ != seq!['.'] && name@ != seq!['.', '.']
                && event is Begin ==> (r matches CreateStep::MakeVaultDir(d) && d@
                == self.vault_dir_spec()),
            !is_single_component(name@) ==> (r matches CreateStep::Finish(
                Err(EnvError::InvalidWorkspaceName { name: n }),
            ) && n@ == name@),
            is_single_component(name@) ==> match event {
                CreateEvent::Begin => r matches CreateStep::MakeVaultDir(d) && d@
                    == self.vault_dir_spec(),
                CreateEvent::VaultDirMade => match add_args_spec(
                    self.path_spec(name@),
                    revisions.deep_view(),
                ) {
                    Some(a) => r matches CreateStep::AddWorkspace(args) && args.deep_view() == a,
                    None => r matches CreateStep::Finish(Err(EnvError::TooManyRevisions)),
                },
                CreateEvent::WorkspaceAdded => create_link_step(*self, name@, 0, r),
                CreateEvent::LinkMade(i) => create_link_step(*self, name@, i + 1, r),
            },
    {
        if !single_component(name) {
            return CreateStep::Finish(
                Err(EnvError::InvalidWorkspaceName { name: String::from_str(name) }),
            );
        }
        match event {
            CreateEvent::Begin => CreateStep::MakeVaultDir(self.vault_dir()),
            CreateEvent::VaultDirMade => match self.workspace_add_args(name, revisions) {
                Ok(args) => CreateStep::AddWorkspace(args),
                Err(e) => CreateStep::Finish(Err(e)),
            },
            CreateEvent::WorkspaceAdded => self.create_link(name, 0),
            CreateEvent::LinkMade(i) => {
                if i < self.config.paths_to_symlink.len() {
                    self.create_link(name, i + 1)
                } else {
                    CreateStep::Finish(Ok(()))
                }
            },
        }
    }

    fn create_link(&self, name: &str, k: usize) -> (r: CreateStep)
        ensures
            create_link_step(*self, name@, k as int, r),
    {
        let mut links = self.symlinks_to_create(name);
        if k < links.len() {
            let link = links.swap_remove(k);
            CreateStep::MakeLink { index: k, link }
        } else {
            CreateStep::Finish(Ok(()))
        }
    }

    /// The next step in deleting the workspace `name`, after `event`. Only a
    /// valid workspace is deleted, so nothing is done for a name that is not
    /// a single path component: `jj` brings it up to date (and a failure
    /// there stops the deletion), clears its files and forgets it; its `.jj`
    /// directory goes; then each configured link is read and removed where
    /// it points to the same path in the repo root, as `create_workspace`
    /// made it.
    pub fn delete_workspace(&self, name: &str, event: DeleteEvent) -> (r: DeleteStep)
        ensures
            !is_single_component(name@) ==> (r matches DeleteStep::Finish(
                Err(EnvError::WorkspaceMissing { name: n }),
            ) && n@ == name@),
            is_single_component(name@) ==> match event {
                DeleteEvent::Begin => r is CheckWorkspace,
                DeleteEvent::Checked { valid } => if valid {
                    r is UpdateStale
                } else {
                    r matches DeleteStep::Finish(Err(EnvError::WorkspaceMissing { name: n }))
                        && n@ == name@
                },
                DeleteEvent::UpdatedStale { success, code } => if success {
                    r is ClearSparse
                } else {
                    r == DeleteStep::Finish(Err(EnvError::UpdateStaleFailed { code }))
                },
                DeleteEvent::SparseCleared => r matches DeleteStep::Forget(n) && n@ == name@,
                DeleteEvent::Forgotten => r is RemoveJjDir,
                DeleteEvent::JjDirRemoved => delete_link_step(*self, name@, 0, r),
                DeleteEvent::LinkRead { index, target } => {
                    let paths = self.spec_config().paths_to_symlink;
                    if index < paths.len() && (target matches Some(t) && std_path_eq(
                        t@,
                        join_spec(self.spec_repo_root(), paths[index as int]@),
                    )) {
                        &&& r matches DeleteStep::RemoveLink { index: k, path }
                        &&& k == index
                        &&& path@ == join_spec(
                            self.workspace_dir_spec(name@),
                            paths[index as int]@,
                        )
                    } else {
                        delete_link_step(*self, name@, index + 1, r)
                    }
                },
                DeleteEvent::LinkRemoved(i) => delete_link_step(*self, name@, i + 1, r),
            },
    {
        if !single_component(name) {
            return DeleteStep::Finish(
                Err(EnvError::WorkspaceMissing { name: String::from_str(name) }),
            );
        }
        match event {
            DeleteEvent::Begin => DeleteStep::CheckWorkspace,
            DeleteEvent::Checked { valid } => {
                if valid {
                    DeleteStep::UpdateStale
                } else {
                    DeleteStep::Finish(Err(EnvError::WorkspaceMissing { name: String::from_str(name) }))
                }
            },
            DeleteEvent::UpdatedStale { success, code } => {
                if success {
                    DeleteStep::ClearSparse
                } else {
                    DeleteStep::Finish(Err(EnvError::UpdateStaleFailed { code }))
                }
            },
            DeleteEvent::SparseCleared => DeleteStep::Forget(String::from_str(name)),
            DeleteEvent::Forgotten => DeleteStep::RemoveJjDir,
            DeleteEvent::JjDirRemoved => self.read_link_step(name, 0),
            DeleteEvent::LinkRead { index, target } => {
                let mut links = self.symlinks_to_remove(name);
                if index < links.len() {
                    let own = match &target {
                        Some(t) => is_own_symlink(&links[index], Some(t.as_str())),
                        None => false,
                    };
                    if own {
                        let link = links.swap_remove(index);
                        return DeleteStep::RemoveLink { index, path: link.dest };
                    }
                    self.read_link_step(name, index + 1)
                } else {
                    DeleteStep::Finish(Ok(()))
                }
            },
            DeleteEvent::LinkRemoved(i) => {
                if i < self.config.paths_to_symlink.len() {
                    self.read_link_step(name, i + 1)
                } else {
                    DeleteStep::Finish(Ok(()))
                }
            },
        }
    }

    fn read_link_step(&self, name: &str, k: usize) -> (r: DeleteStep)
        ensures
            delete_link_step(*self, name@, k as int, r),
    {
        let mut links = self.symlinks_to_remove(name);
        if k < links.len() {
            let link = links.swap_remove(k);
            DeleteStep::ReadLink { index: k, link }
        } else {
            DeleteStep::Finish(Ok(()))
        }
    }
}

/// The text of an error's message.
pub open spec fn message_spec(e: EnvError) -> Seq<char> {
    match e {
        EnvError::ReadFailed { path, .. } => "Failed to read "@ + std_debug_path(path@),
        EnvError::NoRepoRoot { repo_dir } => "Couldn't determine repo root from repo path "@
            + std_debug_path(repo_dir@),
        EnvError::NoWorkspaceName { workspace_root } =>
            "Couldn't determine workspace name from path "@ + std_debug_path(workspace_root@),
        EnvError::TooManyRevisions =>
            "Currently at most two `-r` arguments are supported when creating a workspace"@,
        EnvError::WorkspaceMissing { name } => "Workspace '"@ + name@
            + "' does not exist or is invalid"@,
        EnvError::InvalidWorkspaceName { name } => "Workspace name '"@ + name@
            + "' must be a single path component"@,
        EnvError::UpdateStaleFailed { code } => "`jj workspace update-stale` failed with exit code "@
            + option_i32_debug(code),
    }
}

impl EnvError {
    /// The message that reports this error.
    pub fn message(&self) -> (r: String)
        ensures
            r@ == message_spec(*self),
    {
        match self {
            EnvError::ReadFailed { path, .. } => String::from_str("Failed to read ").concat(
                debug_path(path.as_str()).as_str(),
            ),
            EnvError::NoRepoRoot { repo_dir } => String::from_str(
                "Couldn't determine repo root from repo path ",
            ).concat(debug_path(repo_dir.as_str()).as_str()),
            EnvError::NoWorkspaceName { workspace_root } => String::from_str(
                "Couldn't determine workspace name from path ",
            ).concat(debug_path(workspace_root.as_str()).as_str()),
            EnvError::TooManyRevisions => String::from_str(
                "Currently at most two `-r` arguments are supported when creating a workspace",
            ),
            EnvError::WorkspaceMissing { name } => String::from_str("Workspace '").concat(
                name.as_str(),
            ).concat("' does not exist or is invalid"),
            EnvError::InvalidWorkspaceName { name } => String::from_str("Workspace name '").concat(
                name.as_str(),
            ).concat("' must be a single path component"),
            EnvError::UpdateStaleFailed { code } => String::from_str(
                "`jj workspace update-stale` failed with exit code ",
            ).concat(debug_option_i32(*code).as_str()),
        }
    }
}

} // verus!
