//! The command line: the commands lelouch takes, and the decisions and texts of running them.
use vstd::prelude::*;
use vstd::string::*;
use crate::config::RepoConfig;
use crate::text::{decimal, usize_to_decimal};

verus! {

/// lelouch: a coding-focused orchestration system for agents.
#[derive(Debug)]
pub struct Cli {
    /// Enable verbose/debug logging.
    pub verbose: bool,
    /// Path to config file (overrides default location).
    pub config: Option<String>,
    pub command: Commands,
}

/// The subcommands.
#[derive(Debug)]
pub enum Commands {
    /// Start the daemon/polling loop (foreground); a dry run dispatches nothing.
    Run { dry_run: bool },
    /// Initialize config and add a repository.
    Init {
        /// Path to the repository directory.
        path: String,
        /// Executor to use for this repository (e.g. "cursor-agent").
        executor: String,
        /// Optional name for the repository (defaults to directory name).
        name: Option<String>,
        /// Text put before every task prompt of this repository.
        pre_prompt: Option<String>,
        /// Model the executor is asked to use.
        model: Option<String>,
    },
    /// Queue management commands.
    Queue { command: QueueCommands },
    /// Show current status of watched repositories.
    Status,
}

/// Queue management subcommands.
#[derive(Debug)]
pub enum QueueCommands {
    /// Add a deferred task to a repository's work database.
    Add {
        /// Repository name (as defined in config.toml).
        repo: String,
        /// Task title.
        title: String,
        /// Defer until this time (any format bd supports).
        defer: Option<String>,
    },
}

/// The name `init` gives a repository: the one asked for, else the directory's name,
/// else `unnamed`.
pub fn init_repo_name(name: Option<String>, dir_name: Option<String>) -> (r: String)
    ensures
        name matches Some(n) ==> r@ == n@,
        name is None && dir_name is Some ==> r@ == dir_name->0@,
        name is None && dir_name is None ==> r@ == "unnamed"@,
{
    match name {
        Some(n) => n,
        None => match dir_name {
            Some(d) => d,
            None => String::from_str("unnamed"),
        },
    }
}

/// The default log filter: debug output for lelouch when verbose, else info.
pub fn log_filter(verbose: bool) -> (f: &'static str)
    ensures
        verbose ==> f@ == "lelouch=debug"@,
        !verbose ==> f@ == "lelouch=info"@,
{
    if verbose {
        "lelouch=debug"
    } else {
        "lelouch=info"
    }
}

/// The `status` command's entry for a repository.
pub open spec fn status_entry_text(name: Seq<char>, path: Seq<char>, executor: Seq<char>, ready: nat) -> Seq<
    char,
> {
    "  "@ + name + " ("@ + path + ")\n    executor: "@ + executor + "\n    ready tasks: "@ + decimal(
        ready,
    ) + "\n"@
}

/// The `status` command's entry for a repository with `ready` ready tasks.
pub fn status_entry(repo: &RepoConfig, ready: usize) -> (s: String)
    ensures
        s@ == status_entry_text(repo.name@, repo.path@, repo.executor@, ready as nat),
{
    let mut s = String::from_str("  ");
    s.append(repo.name.as_str());
    s.append(" (");
    s.append(repo.path.as_str());
    s.append(")\n    executor: ");
    s.append(repo.executor.as_str());
    s.append("\n    ready tasks: ");
    let d = usize_to_decimal(ready);
    s.append(d.as_str());
    s.append("\n");
    s
}

} // verus!
