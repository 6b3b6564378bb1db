//! Git: the command lines that manage worktrees and bring them to the upstream state,
//! and the directories a container needs to use git.
use vstd::prelude::*;
use vstd::string::*;
use crate::config::home_dir;
use crate::executor::{Mount, MountSpec, mount_views};
use crate::path::{join, join_path};
use crate::text::{trim, trim_str, views};
use crate::work_db::opt_view;

verus! {

/// Version control through the `git` command line tool.
#[derive(Debug)]
pub struct GitVcs;

fn strs(v: &mut Vec<String>, s: &str)
    ensures
        views(final(v)@) == views(old(v)@).push(s@),
{
    v.push(String::from_str(s));
    assert(views(v@) =~= views(old(v)@).push(s@));
}

/// The upstream refs tried in turn for the merge base: the tracked branch, then
/// `origin/main`, then `origin/master`.
pub open spec fn upstream_ref(attempt: nat) -> Seq<char> {
    if attempt == 0 {
        "@{u}"@
    } else if attempt == 1 {
        "origin/main"@
    } else {
        "origin/master"@
    }
}

/// The paths that may be mounted into a container for git: the repository's `.git`
/// directory and, with a home directory, the user's git configuration.
#[derive(Debug)]
pub struct GitMountPaths {
    pub git_dir: String,
    pub home: Option<String>,
    pub gitconfig: Option<String>,
    pub config_git: Option<String>,
}

/// The mounts for git, given which of the candidate paths exist: `.git` read-write at the
/// same place, `~/.gitconfig` and `~/.config/git` read-only under `/root`.
pub open spec fn git_mounts(
    git_dir: Seq<char>,
    home: Option<Seq<char>>,
    git_dir_exists: bool,
    gitconfig_exists: bool,
    config_git_exists: bool,
) -> Seq<MountSpec> {
    let a = if git_dir_exists {
        seq![MountSpec { host: git_dir, container: git_dir, read_only: false }]
    } else {
        seq![]
    };
    let b = if home is Some && gitconfig_exists {
        seq![
            MountSpec {
                host: join_path(home->0, ".gitconfig"@),
                container: "/root/.gitconfig"@,
                read_only: true,
            },
        ]
    } else {
        seq![]
    };
    let c = if home is Some && config_git_exists {
        seq![
            MountSpec {
                host: join_path(join_path(home->0, ".config"@), "git"@),
                container: "/root/.config/git"@,
                read_only: true,
            },
        ]
    } else {
        seq![]
    };
    a + b + c
}

impl GitVcs {
    /// `git worktree add -f <path>`.
    pub fn worktree_add_args(worktree_path: &str) -> (v: Vec<String>)
        ensures
            views(v@) == seq!["worktree"@, "add"@, "-f"@, worktree_path@],
    {
        let mut v: Vec<String> = Vec::new();
        strs(&mut v, "worktree");
        strs(&mut v, "add");
        strs(&mut v, "-f");
        strs(&mut v, worktree_path);
        v
    }

    /// `git worktree remove --force <path>`.
    pub fn worktree_remove_args(worktree_path: &str) -> (v: Vec<String>)
        ensures
            views(v@) == seq!["worktree"@, "remove"@, "--force"@, worktree_path@],
    {
        let mut v: Vec<String> = Vec::new();
        strs(&mut v, "worktree");
        strs(&mut v, "remove");
        strs(&mut v, "--force");
        strs(&mut v, worktree_path);
        v
    }

    /// `git fetch --quiet`.
    pub fn fetch_args() -> (v: Vec<String>)
        ensures
            views(v@) == seq!["fetch"@, "--quiet"@],
    {
        let mut v: Vec<String> = Vec::new();
        strs(&mut v, "fetch");
        strs(&mut v, "--quiet");
        v
    }

    /// The command of attempt `attempt` (0 to 3) to find the merge base: `git merge-base
    /// HEAD <upstream>` for the three upstream refs in turn, then `git rev-parse HEAD`.
    pub fn merge_base_args(attempt: usize) -> (v: Vec<String>)
        requires
            attempt < 4,
        ensures
            attempt < 3 ==> views(v@) == seq!["merge-base"@, "HEAD"@, upstream_ref(attempt as nat)],
            attempt == 3 ==> views(v@) == seq!["rev-parse"@, "HEAD"@],
    {
        let mut v: Vec<String> = Vec::new();
        if attempt == 3 {
            strs(&mut v, "rev-parse");
            strs(&mut v, "HEAD");
        } else {
            strs(&mut v, "merge-base");
            strs(&mut v, "HEAD");
            if attempt == 0 {
                strs(&mut v, "@{u}");
            } else if attempt == 1 {
                strs(&mut v, "origin/main");
            } else {
                strs(&mut v, "origin/master");
            }
        }
        v
    }

    /// The merge base an attempt gives: its trimmed output when it succeeded, or in any
    /// case for the last attempt (`HEAD` itself); `None` sends the search to the next attempt.
    pub fn merge_base_from(attempt: usize, success: bool, stdout: &str) -> (r: Option<String>)
        ensures
            (success || attempt >= 3) ==> (r matches Some(b) && b@ == trim(stdout@)),
            !(success || attempt >= 3) ==> r is None,
    {
        if success || attempt >= 3 {
            Some(trim_str(stdout))
        } else {
            None
        }
    }

    /// `git reset --hard <commit>`.
    pub fn reset_args(commit: &str) -> (v: Vec<String>)
        ensures
            views(v@) == seq!["reset"@, "--hard"@, commit@],
    {
        let mut v: Vec<String> = Vec::new();
        strs(&mut v, "reset");
        strs(&mut v, "--hard");
        strs(&mut v, commit);
        v
    }

    /// `git clean -fd`.
    pub fn clean_args() -> (v: Vec<String>)
        ensures
            views(v@) == seq!["clean"@, "-fd"@],
    {
        let mut v: Vec<String> = Vec::new();
        strs(&mut v, "clean");
        strs(&mut v, "-fd");
        v
    }

    /// The candidate paths for git's mounts, given the home directory.
    pub fn mount_paths_with_home(repo_path: &str, home: Option<String>) -> (p: GitMountPaths)
        ensures
            p.git_dir@ == join_path(repo_path@, ".git"@),
            opt_view(p.home) == opt_view(home),
            home is None ==> p.gitconfig is None && p.config_git is None,
            home matches Some(h) ==> {
                &&& p.gitconfig matches Some(g) && g@ == join_path(h@, ".gitconfig"@)
                &&& p.config_git matches Some(c) && c@ == join_path(
                    join_path(h@, ".config"@),
                    "git"@,
                )
            },
    {
        let git_dir = join(repo_path, ".git");
        match home {
            Some(h) => {
                let gitconfig = join(h.as_str(), ".gitconfig");
                let config = join(h.as_str(), ".config");
                let config_git = join(config.as_str(), "git");
                GitMountPaths {
                    git_dir,
                    home: Some(h),
                    gitconfig: Some(gitconfig),
                    config_git: Some(config_git),
                }
            },
            None => GitMountPaths { git_dir, home: None, gitconfig: None, config_git: None },
        }
    }

    /// The candidate paths for git's mounts, with the user's home directory as the
    /// platform reports it.
    pub fn mount_paths(repo_path: &str) -> (p: GitMountPaths)
        ensures
            p.git_dir@ == join_path(repo_path@, ".git"@),
            p.home is None ==> p.gitconfig is None && p.config_git is None,
            p.home matches Some(h) ==> {
                &&& p.gitconfig matches Some(g) && g@ == join_path(h@, ".gitconfig"@)
                &&& p.config_git matches Some(c) && c@ == join_path(
                    join_path(h@, ".config"@),
                    "git"@,
                )
            },
    {
        Self::mount_paths_with_home(repo_path, home_dir())
    }

    /// The mounts a container needs for git, given which candidate paths exist.
    pub fn required_mounts(
        paths: &GitMountPaths,
        git_dir_exists: bool,
        gitconfig_exists: bool,
        config_git_exists: bool,
    ) -> (m: Vec<Mount>)
        requires
            paths.home is None ==> paths.gitconfig is None && paths.config_git is None,
            paths.home matches Some(h) ==> {
                &&& paths.gitconfig matches Some(g) && g@ == join_path(h@, ".gitconfig"@)
                &&& paths.config_git matches Some(c) && c@ == join_path(
                    join_path(h@, ".config"@),
                    "git"@,
                )
            },
        ensures
            mount_views(m@) == git_mounts(
                paths.git_dir@,
                opt_view(paths.home),
                git_dir_exists,
                gitconfig_exists,
                config_git_exists,
            ),
    {
        let mut m: Vec<Mount> = Vec::new();
        if git_dir_exists {
            m.push(
                Mount {
                    host: paths.git_dir.clone(),
                    container: paths.git_dir.clone(),
                    read_only: false,
                },
            );
        }
        let ghost a = mount_views(m@);
        match &paths.gitconfig {
            Some(g) => {
                if gitconfig_exists {
                    m.push(
                        Mount {
                            host: g.clone(),
                            container: String::from_str("/root/.gitconfig"),
                            read_only: true,
                        },
                    );
                }
            },
            None => {},
        }
        let ghost b = mount_views(m@);
        match &paths.config_git {
            Some(c) => {
                if config_git_exists {
                    m.push(
                        Mount {
                            host: c.clone(),
                            container: String::from_str("/root/.config/git"),
                            read_only: true,
                        },
                    );
                }
            },
            None => {},
        }
        assert(mount_views(m@) =~= git_mounts(
            paths.git_dir@,
            opt_view(paths.home),
            git_dir_exists,
            gitconfig_exists,
            config_git_exists,
        ));
        m
    }
}

} // verus!
