//! Configuration: the repositories lelouch manages and where its config file lives.
use vstd::prelude::*;
use vstd::string::*;
use crate::error::LelouchError;
use crate::path::{join, join_path};
use crate::text::{has_prefix, join_seqs, starts_with, str_eq, views};
use crate::work_db::{clone_opt, opt_view};

verus! {

/// Top-level configuration: the repositories, in the order the config file lists them.
#[derive(Debug)]
pub struct Config {
    pub repositories: Vec<RepoConfig>,
}

/// Configuration for a single repository that lelouch manages.
#[derive(Debug)]
pub struct RepoConfig {
    /// Human-readable name for this repository.
    pub name: String,
    /// Path to the repository on disk; a leading `~/` stands for the home directory.
    pub path: String,
    /// Which executor runs its tasks (e.g. "cursor-agent").
    pub executor: String,
    /// Polling interval in seconds.
    pub poll_interval_secs: u64,
    /// Text put before every task prompt.
    pub pre_prompt: Option<String>,
    /// Model the executor is asked to use.
    pub model: Option<String>,
    /// Number of worktrees (and so of tasks run at once).
    pub max_worker_count: usize,
    /// Run tasks in the repository itself instead of in worktrees (one at a time).
    pub in_repo: bool,
    /// Run the executor natively instead of in a container.
    pub no_sandbox: bool,
    /// Container image the executor runs in.
    pub docker_image_name: String,
}

/// The settings of a repository as plain values.
pub struct RepoSpec {
    pub name: Seq<char>,
    pub path: Seq<char>,
    pub executor: Seq<char>,
    pub poll_interval_secs: u64,
    pub pre_prompt: Option<Seq<char>>,
    pub model: Option<Seq<char>>,
    pub max_worker_count: usize,
    pub in_repo: bool,
    pub no_sandbox: bool,
    pub docker_image_name: Seq<char>,
}

impl View for RepoConfig {
    type V = RepoSpec;

    open spec fn view(&self) -> RepoSpec {
        RepoSpec {
            name: self.name@,
            path: self.path@,
            executor: self.executor@,
            poll_interval_secs: self.poll_interval_secs,
            pre_prompt: opt_view(self.pre_prompt),
            model: opt_view(self.model),
            max_worker_count: self.max_worker_count,
            in_repo: self.in_repo,
            no_sandbox: self.no_sandbox,
            docker_image_name: self.docker_image_name@,
        }
    }
}

/// The settings of each repository of a list.
pub open spec fn repo_views(s: Seq<RepoConfig>) -> Seq<RepoSpec> {
    s.map_values(|r: RepoConfig| r@)
}

/// The names of a list of repository settings.
pub open spec fn names_of(s: Seq<RepoSpec>) -> Seq<Seq<char>> {
    s.map_values(|r: RepoSpec| r.name)
}

/// The names of a list of repositories.
pub open spec fn repo_names(s: Seq<RepoConfig>) -> Seq<Seq<char>> {
    s.map_values(|r: RepoConfig| r.name@)
}

/// The polling interval a repository gets when its entry names none.
pub open spec fn spec_default_poll_interval() -> u64 {
    60
}

/// Default polling interval, in seconds.
pub fn default_poll_interval() -> (r: u64)
    ensures
        r == spec_default_poll_interval(),
{
    60
}

/// The number of worktrees a repository gets when its entry names none.
pub open spec fn spec_default_max_worker_count() -> usize {
    1
}

/// Default number of worktrees.
pub fn default_max_worker_count() -> (r: usize)
    ensures
        r == spec_default_max_worker_count(),
{
    1
}

/// The container image a repository gets when its entry names none.
pub open spec fn spec_default_docker_image_name() -> Seq<char> {
    "lelouch"@
}

/// Default container image.
pub fn default_docker_image_name() -> (r: String)
    ensures
        r@ == spec_default_docker_image_name(),
{
    String::from_str("lelouch")
}

fn opt_str(o: Option<&str>) -> (r: Option<String>)
    ensures
        opt_view(r) == match o {
            Some(s) => Some(s@),
            None => None::<Seq<char>>,
        },
{
    match o {
        Some(s) => Some(String::from_str(s)),
        None => None,
    }
}

fn opt_eq(a: &Option<String>, b: &Option<String>) -> (r: bool)
    ensures
        r == (opt_view(*a) == opt_view(*b)),
{
    match (a, b) {
        (Some(x), Some(y)) => *x == *y,
        (None, None) => true,
        _ => false,
    }
}

/// The settings `add_repo` writes for a new repository: the given values and the defaults.
pub open spec fn new_repo_spec(
    name: Seq<char>,
    path: Seq<char>,
    executor: Seq<char>,
    pre_prompt: Option<Seq<char>>,
    model: Option<Seq<char>>,
) -> RepoSpec {
    RepoSpec {
        name,
        path,
        executor,
        poll_interval_secs: spec_default_poll_interval(),
        pre_prompt,
        model,
        max_worker_count: spec_default_max_worker_count(),
        in_repo: false,
        no_sandbox: false,
        docker_image_name: spec_default_docker_image_name(),
    }
}

/// The view of an optional `&str`.
pub open spec fn opt_str_view(o: Option<&str>) -> Option<Seq<char>> {
    match o {
        Some(s) => Some(s@),
        None => None,
    }
}

/// `path` with the home directory put for a `~` that stands alone or before a `/`, or
/// `None` when it needs the home directory and there is none.
pub open spec fn expanded_path(path: Seq<char>, home: Option<Seq<char>>) -> Option<Seq<char>> {
    if path == "~"@ {
        home
    } else if has_prefix(path, "~/"@) {
        match home {
            Some(h) => Some(join_path(h, path.subrange(2, path.len() as int))),
            None => None,
        }
    } else {
        Some(path)
    }
}

/// Whether `path` names the home directory or something under it.
pub open spec fn needs_home(path: Seq<char>) -> bool {
    path == "~"@ || has_prefix(path, "~/"@)
}

/// Expands `~` alone, or a leading `~/`, of `path` with `home`.
pub fn expand_home(path: &str, home: Option<String>) -> (r: Result<String, LelouchError>)
    ensures
        match expanded_path(path@, opt_view(home)) {
            Some(p) => r matches Ok(q) && q@ == p,
            None => r matches Err(LelouchError::NoHomeDirectory),
        },
{
    proof {
        reveal_strlit("~/");
        reveal_strlit("~");
    }
    if str_eq(path, "~") {
        match home {
            Some(h) => Ok(h),
            None => Err(LelouchError::NoHomeDirectory),
        }
    } else if starts_with(path, "~/") {
        match home {
            Some(h) => {
                let n = path.unicode_len();
                let rest = path.substring_char(2, n);
                Ok(join(h.as_str(), rest))
            },
            None => Err(LelouchError::NoHomeDirectory),
        }
    } else {
        Ok(String::from_str(path))
    }
}

/// The platform's base directories (`directories::BaseDirs`), carried through opaquely.
#[verifier::external_type_specification]
#[verifier::external_body]
pub struct ExBaseDirs(directories::BaseDirs);

/// The platform's directories of an application (`directories::ProjectDirs`), carried
/// through opaquely.
#[verifier::external_type_specification]
#[verifier::external_body]
pub struct ExProjectDirs(directories::ProjectDirs);

/// `directories::BaseDirs::new`: the user's base directories, or `None` when no home
/// directory can be found. It reads the environment (`$HOME`, the user database), so
/// nothing is stated of it.
#[verifier::external_body]
fn base_dirs() -> (r: Option<directories::BaseDirs>) {
    directories::BaseDirs::new()
}

/// `directories::BaseDirs::home_dir`, as text. The value was fixed from the environment
/// when the base directories were found, so nothing is stated of it.
#[verifier::external_body]
fn base_home_dir(d: &directories::BaseDirs) -> (r: String) {
    d.home_dir().to_string_lossy().to_string()
}

/// `directories::ProjectDirs::from`: an application's directories, or `None` when no
/// home directory can be found. It reads the environment (`$HOME`, `$XDG_CONFIG_HOME`,
/// `$XDG_DATA_HOME`), so nothing is stated of it.
#[verifier::external_body]
fn project_dirs_from(qualifier: &str, organization: &str, application: &str) -> (r: Option<
    directories::ProjectDirs,
>) {
    directories::ProjectDirs::from(qualifier, organization, application)
}

/// `directories::ProjectDirs::config_dir`, as text. Which directory it is was fixed from
/// the environment when the directories were found, so only this is stated: it is not
/// empty, as the crate makes it by joining a base directory (an absolute `$XDG_CONFIG_HOME`,
/// or a path under the non-empty home directory) with the project path.
#[verifier::external_body]
fn project_config_dir(d: &directories::ProjectDirs) -> (r: String)
    ensures
        r@.len() > 0,
{
    d.config_dir().to_string_lossy().to_string()
}

/// `directories::ProjectDirs::data_dir`, as text. Which directory it is was fixed from
/// the environment when the directories were found, so only this is stated: it is not
/// empty, as the crate makes it by joining a base directory (an absolute `$XDG_DATA_HOME`,
/// or a path under the non-empty home directory) with the project path.
#[verifier::external_body]
fn project_data_dir(d: &directories::ProjectDirs) -> (r: String)
    ensures
        r@.len() > 0,
{
    d.data_dir().to_string_lossy().to_string()
}

/// The user's home directory, if the platform reports one.
pub(crate) fn home_dir() -> (r: Option<String>) {
    match base_dirs() {
        Some(d) => Some(base_home_dir(&d)),
        None => None,
    }
}

/// The names lelouch's directories are made from: no qualifier, no organization, and
/// the application `lelouch`.
pub fn app_dirs_names() -> (r: (&'static str, &'static str, &'static str))
    ensures
        r.0@ == ""@,
        r.1@ == ""@,
        r.2@ == "lelouch"@,
{
    ("", "", "lelouch")
}

/// lelouch's config directory, if the platform reports one: the config directory of the
/// project made from `app_dirs_names`.
pub(crate) fn lelouch_config_dir() -> (r: Option<String>)
    ensures
        r matches Some(d) ==> d@.len() > 0,
{
    let (qualifier, organization, application) = app_dirs_names();
    match project_dirs_from(qualifier, organization, application) {
        Some(d) => Some(project_config_dir(&d)),
        None => None,
    }
}

/// lelouch's data directory, if the platform reports one: the data directory of the
/// project made from `app_dirs_names`.
pub(crate) fn lelouch_data_dir() -> (r: Option<String>)
    ensures
        r matches Some(d) ==> d@.len() > 0,
{
    let (qualifier, organization, application) = app_dirs_names();
    match project_dirs_from(qualifier, organization, application) {
        Some(d) => Some(project_data_dir(&d)),
        None => None,
    }
}

/// The config file inside the given config directory, or an error without one.
pub fn config_path_in(config_dir: Option<String>) -> (r: Result<String, LelouchError>)
    ensures
        match config_dir {
            Some(d) => r matches Ok(p) && p@ == join_path(d@, "config.toml"@),
            None => r matches Err(LelouchError::NoConfigDirectory),
        },
{
    match config_dir {
        Some(d) => Ok(join(d.as_str(), "config.toml")),
        None => Err(LelouchError::NoConfigDirectory),
    }
}

/// The platform's config file path: `config.toml` in lelouch's config directory.
pub fn config_path() -> (r: Result<String, LelouchError>)
    ensures
        r matches Ok(p) ==> exists|d: Seq<char>| d.len() > 0 && p@ == join_path(d, "config.toml"@),
        r matches Err(e) ==> e is NoConfigDirectory,
{
    let dir = lelouch_config_dir();
    let ghost d = opt_view(dir);
    let r = config_path_in(dir);
    proof {
        if r is Ok {
            assert(d is Some);
        }
    }
    r
}

/// The config file `add_repo` writes: the override when given, else the platform's path.
pub fn config_file_path(config_override: Option<&str>) -> (r: Result<String, LelouchError>)
    ensures
        config_override matches Some(p) ==> (r matches Ok(q) && q@ == p@),
        config_override is None ==> (r matches Ok(p) ==> exists|d: Seq<char>|
            d.len() > 0 && p@ == join_path(d, "config.toml"@)) && (r matches Err(e) ==> e is NoConfigDirectory),
{
    match config_override {
        Some(p) => Ok(String::from_str(p)),
        None => config_path(),
    }
}

impl Clone for RepoConfig {
    fn clone(&self) -> (r: Self)
        ensures
            r == *self,
    {
        RepoConfig {
            name: self.name.clone(),
            path: self.path.clone(),
            executor: self.executor.clone(),
            poll_interval_secs: self.poll_interval_secs,
            pre_prompt: clone_opt(&self.pre_prompt),
            model: clone_opt(&self.model),
            max_worker_count: self.max_worker_count,
            in_repo: self.in_repo,
            no_sandbox: self.no_sandbox,
            docker_image_name: self.docker_image_name.clone(),
        }
    }
}

impl RepoConfig {
    /// A repository entry with the given values and the defaults for the rest.
    pub fn new(
        name: &str,
        path: &str,
        executor: &str,
        pre_prompt: Option<&str>,
        model: Option<&str>,
    ) -> (r: Self)
        ensures
            r@ == new_repo_spec(name@, path@, executor@, opt_str_view(pre_prompt), opt_str_view(model)),
    {
        RepoConfig {
            name: String::from_str(name),
            path: String::from_str(path),
            executor: String::from_str(executor),
            poll_interval_secs: default_poll_interval(),
            pre_prompt: opt_str(pre_prompt),
            model: opt_str(model),
            max_worker_count: default_max_worker_count(),
            in_repo: false,
            no_sandbox: false,
            docker_image_name: default_docker_image_name(),
        }
    }

    /// Whether two entries hold the same settings.
    pub fn same_settings(&self, other: &RepoConfig) -> (b: bool)
        ensures
            b == (self@ == other@),
    {
        self.name == other.name && self.path == other.path && self.executor == other.executor
            && self.poll_interval_secs == other.poll_interval_secs && opt_eq(
            &self.pre_prompt,
            &other.pre_prompt,
        ) && opt_eq(&self.model, &other.model) && self.max_worker_count == other.max_worker_count
            && self.in_repo == other.in_repo && self.no_sandbox == other.no_sandbox
            && self.docker_image_name == other.docker_image_name
    }

    /// Number of tasks run at once: one when working in the repository itself.
    pub open spec fn effective_max_workers_spec(&self) -> usize {
        if self.in_repo {
            1
        } else {
            self.max_worker_count
        }
    }

    /// Number of tasks run at once: one when working in the repository itself.
    pub fn effective_max_workers(&self) -> (n: usize)
        ensures
            n == self.effective_max_workers_spec(),
    {
        if self.in_repo {
            1
        } else {
            self.max_worker_count
        }
    }

    /// The repository path with `~` (alone or before a `/`) expanded to the home
    /// directory.
    pub fn resolved_path(&self) -> (r: Result<String, LelouchError>)
        ensures
            !needs_home(self.path@) ==> (r matches Ok(p) && p@ == self.path@),
            has_prefix(self.path@, "~/"@) ==> (r matches Ok(p) ==> exists|h: Seq<char>|
                p@ == join_path(h, self.path@.subrange(2, self.path@.len() as int))),
            r matches Err(e) ==> e is NoHomeDirectory && needs_home(self.path@),
    {
        let home = home_dir();
        let ghost h = opt_view(home);
        let r = expand_home(self.path.as_str(), home);
        proof {
            reveal_strlit("~");
            reveal_strlit("~/");
            if has_prefix(self.path@, "~/"@) {
                assert(self.path@ != "~"@);
                if r is Ok {
                    assert(h is Some);
                }
            }
        }
        r
    }
}

/// Whether some repository of the list has this path.
pub open spec fn has_repo_path(s: Seq<RepoSpec>, path: Seq<char>) -> bool {
    exists|i: int| 0 <= i < s.len() && #[trigger] s[i].path == path
}

impl Config {
    /// A configuration without repositories.
    pub fn empty() -> (c: Self)
        ensures
            c.repositories@.len() == 0,
    {
        Config { repositories: Vec::new() }
    }

    /// Adds a repository with the given values and the defaults, unless one with the
    /// same path is configured already.
    pub fn add_repository(
        &mut self,
        name: &str,
        path: &str,
        executor: &str,
        pre_prompt: Option<&str>,
        model: Option<&str>,
    ) -> (r: Result<(), LelouchError>)
        ensures
            has_repo_path(repo_views(old(self).repositories@), path@) ==> {
                &&& (r matches Err(LelouchError::DuplicateRepoPath { path: p }) && p@ == path@)
                &&& repo_views(final(self).repositories@) == repo_views(old(self).repositories@)
            },
            !has_repo_path(repo_views(old(self).repositories@), path@) ==> {
                &&& r is Ok
                &&& repo_views(final(self).repositories@) == repo_views(
                    old(self).repositories@,
                ).push(
                    new_repo_spec(name@, path@, executor@, opt_str_view(pre_prompt), opt_str_view(model)),
                )
            },
    {
        let n = self.repositories.len();
        let mut i: usize = 0;
        while i < n
            invariant
                n == self.repositories@.len(),
                i <= n,
                self.repositories@ == old(self).repositories@,
                forall|j: int| 0 <= j < i ==> self.repositories@[j].path@ != path@,
            decreases n - i,
        {
            if crate::text::str_eq(self.repositories[i].path.as_str(), path) {
                assert(repo_views(old(self).repositories@)[i as int].path == path@);
                return Err(LelouchError::DuplicateRepoPath { path: String::from_str(path) });
            }
            i = i + 1;
        }
        assert(!has_repo_path(repo_views(old(self).repositories@), path@)) by {
            assert forall|j: int| 0 <= j < n implies #[trigger] repo_views(
                old(self).repositories@,
            )[j].path != path@ by {
                assert(self.repositories@[j].path@ != path@);
            }
        }
        let repo = RepoConfig::new(name, path, executor, pre_prompt, model);
        self.repositories.push(repo);
        assert(repo_views(self.repositories@) =~= repo_views(old(self).repositories@).push(
            new_repo_spec(name@, path@, executor@, opt_str_view(pre_prompt), opt_str_view(model)),
        ));
        Ok(())
    }

    /// The names of the configured repositories.
    pub fn names(&self) -> (v: Vec<String>)
        ensures
            views(v@) == repo_names(self.repositories@),
    {
        let mut v: Vec<String> = Vec::new();
        let n = self.repositories.len();
        let mut i: usize = 0;
        while i < n
            invariant
                n == self.repositories@.len(),
                i <= n,
                v@.len() == i,
                forall|k: int| 0 <= k < i ==> #[trigger] v@[k]@ == self.repositories@[k].name@,
            decreases n - i,
        {
            v.push(self.repositories[i].name.clone());
            i = i + 1;
        }
        assert(views(v@) =~= repo_names(self.repositories@));
        v
    }

    /// The first repository with this name, or an error listing the names there are
    /// (joined with ", ").
    pub fn find_repo(&self, name: &str) -> (r: Result<&RepoConfig, LelouchError>)
        ensures
            match r {
                Ok(repo) => exists|i: int|
                    0 <= i < self.repositories@.len() && self.repositories@[i] == *repo
                        && repo.name@ == name@ && forall|j: int|
                        0 <= j < i ==> #[trigger] self.repositories@[j].name@ != name@,
                Err(e) => {
                    &&& forall|j: int|
                        0 <= j < self.repositories@.len() ==> #[trigger] self.repositories@[j].name@
                            != name@
                    &&& e matches LelouchError::RepoNotFound { name: n, available: a } && n@
                        == name@ && a@ == join_seqs(
                        repo_names(self.repositories@),
                        ", "@,
                    )
                },
            },
    {
        let n = self.repositories.len();
        let mut i: usize = 0;
        while i < n
            invariant
                n == self.repositories@.len(),
                i <= n,
                forall|j: int| 0 <= j < i ==> #[trigger] self.repositories@[j].name@ != name@,
            decreases n - i,
        {
            if crate::text::str_eq(self.repositories[i].name.as_str(), name) {
                return Ok(&self.repositories[i]);
            }
            i = i + 1;
        }
        let names = self.names();
        let available = crate::text::join(&names, ", ");
        Err(LelouchError::RepoNotFound { name: String::from_str(name), available })
    }
}

} // verus!

verus! {

/// Law: once a repository is added, its path is taken, so adding another repository
/// with the same path is refused.
pub proof fn law_added_path_is_taken(
    repos: Seq<RepoSpec>,
    name: Seq<char>,
    path: Seq<char>,
    executor: Seq<char>,
    pre_prompt: Option<Seq<char>>,
    model: Option<Seq<char>>,
)
    ensures
        has_repo_path(repos.push(new_repo_spec(name, path, executor, pre_prompt, model)), path),
{
    let r = repos.push(new_repo_spec(name, path, executor, pre_prompt, model));
    assert(r[repos.len() as int].path == path);
}

} // verus!
