//! The beads (`bd`) work database: the command lines that query and change it, and the
//! messages that report a failed command.
use vstd::prelude::*;
use vstd::string::*;
use crate::text::{join, join_seqs, trim, trim_str, views};

verus! {

/// Work database backend that runs the `bd` command line tool (beads).
#[derive(Debug)]
pub struct BeadsDb;

fn strs(v: &mut Vec<String>, s: &str)
    ensures
        views(final(v)@) == views(old(v)@).push(s@),
{
    v.push(String::from_str(s));
    assert(views(v@) =~= views(old(v)@).push(s@));
}

/// The text of a `bd` command: `bd` and its arguments, separated by spaces.
pub open spec fn command_text(args: Seq<Seq<char>>) -> Seq<char> {
    "bd "@ + join_seqs(args, " "@)
}

impl BeadsDb {
    pub fn new() -> Self {
        BeadsDb
    }

    /// `bd ready --json --limit 0`: all tasks that are ready (not blocked, not deferred).
    pub fn ready_args() -> (v: Vec<String>)
        ensures
            views(v@) == seq!["ready"@, "--json"@, "--limit"@, "0"@],
    {
        let mut v: Vec<String> = Vec::new();
        strs(&mut v, "ready");
        strs(&mut v, "--json");
        strs(&mut v, "--limit");
        strs(&mut v, "0");
        v
    }

    /// `bd list --json --status open --limit 0`: all open tasks (the startup scan).
    pub fn full_scan_args() -> (v: Vec<String>)
        ensures
            views(v@) == seq!["list"@, "--json"@, "--status"@, "open"@, "--limit"@, "0"@],
    {
        let mut v: Vec<String> = Vec::new();
        strs(&mut v, "list");
        strs(&mut v, "--json");
        strs(&mut v, "--status");
        strs(&mut v, "open");
        strs(&mut v, "--limit");
        strs(&mut v, "0");
        v
    }

    /// `bd set-state <id> <state>`.
    pub fn set_state_args(task_id: &str, state: &str) -> (v: Vec<String>)
        ensures
            views(v@) == seq!["set-state"@, task_id@, state@],
    {
        let mut v: Vec<String> = Vec::new();
        strs(&mut v, "set-state");
        strs(&mut v, task_id);
        strs(&mut v, state);
        v
    }

    /// `bd set-state <id> in_progress`.
    pub fn set_in_progress_args(task_id: &str) -> (v: Vec<String>)
        ensures
            views(v@) == seq!["set-state"@, task_id@, "in_progress"@],
    {
        Self::set_state_args(task_id, "in_progress")
    }

    /// `bd set-state <id> open`: the task goes back to the queue.
    pub fn set_open_args(task_id: &str) -> (v: Vec<String>)
        ensures
            views(v@) == seq!["set-state"@, task_id@, "open"@],
    {
        Self::set_state_args(task_id, "open")
    }

    /// `bd close <id>`: the task is done.
    pub fn set_complete_args(task_id: &str) -> (v: Vec<String>)
        ensures
            views(v@) == seq!["close"@, task_id@],
    {
        let mut v: Vec<String> = Vec::new();
        strs(&mut v, "close");
        strs(&mut v, task_id);
        v
    }

    /// `bd comments add <id> <text>`.
    pub fn add_comment_args(task_id: &str, body: &str) -> (v: Vec<String>)
        ensures
            views(v@) == seq!["comments"@, "add"@, task_id@, body@],
    {
        let mut v: Vec<String> = Vec::new();
        strs(&mut v, "comments");
        strs(&mut v, "add");
        strs(&mut v, task_id);
        strs(&mut v, body);
        v
    }

    /// `bd create --title <title> --type task --defer <when> --json --silent`.
    pub fn create_deferred_args(title: &str, defer_until: &str) -> (v: Vec<String>)
        ensures
            views(v@) == seq![
                "create"@,
                "--title"@,
                title@,
                "--type"@,
                "task"@,
                "--defer"@,
                defer_until@,
                "--json"@,
                "--silent"@,
            ],
    {
        let mut v: Vec<String> = Vec::new();
        strs(&mut v, "create");
        strs(&mut v, "--title");
        strs(&mut v, title);
        strs(&mut v, "--type");
        strs(&mut v, "task");
        strs(&mut v, "--defer");
        strs(&mut v, defer_until);
        strs(&mut v, "--json");
        strs(&mut v, "--silent");
        v
    }

    /// The text of the command, as logs and errors show it.
    pub fn command_line(args: &Vec<String>) -> (s: String)
        ensures
            s@ == command_text(views(args@)),
    {
        let j = join(args, " ");
        let mut s = String::from_str("bd ");
        s.append(j.as_str());
        s
    }

    /// The message when `bd` could not be started in the repository.
    pub fn spawn_failure_message(args: &Vec<String>, repo_path: &str) -> (s: String)
        ensures
            s@ == "failed to execute "@ + command_text(views(args@)) + " in "@ + repo_path@,
    {
        let mut s = String::from_str("failed to execute ");
        let c = Self::command_line(args);
        s.append(c.as_str());
        s.append(" in ");
        s.append(repo_path);
        s
    }

    /// The message when `bd` ended unsuccessfully: the command, its exit status and its
    /// trimmed error output.
    pub fn failure_message(args: &Vec<String>, status: &str, stderr: &str) -> (s: String)
        ensures
            s@ == command_text(views(args@)) + " failed (exit "@ + status@ + "): "@ + trim(
                stderr@,
            ),
    {
        let mut s = Self::command_line(args);
        s.append(" failed (exit ");
        s.append(status);
        s.append("): ");
        let t = trim_str(stderr);
        s.append(t.as_str());
        s
    }

    /// The deferral `queue add` asks for: the given one, or `+0s` (ready at once).
    pub fn defer_or_now(defer: Option<&str>) -> (s: String)
        ensures
            defer matches Some(d) ==> s@ == d@,
            defer is None ==> s@ == "+0s"@,
    {
        match defer {
            Some(d) => String::from_str(d),
            None => String::from_str("+0s"),
        }
    }
}

} // verus!
