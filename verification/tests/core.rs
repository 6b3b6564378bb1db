use lelouch::beads::BeadsDb;
use lelouch::cli::{init_repo_name, log_filter, status_entry};
use lelouch::config::{app_dirs_names, config_path_in, default_poll_interval, expand_home, Config, RepoConfig};
use lelouch::error::LelouchError;
use lelouch::path::join;
use lelouch::text::{blank, join as join_strings, last_line_not_blank, starts_with, trim_end_str, trim_str, usize_to_decimal};
use lelouch::vcs::GitVcs;
use lelouch::worktree::WorktreeManager;

fn s(x: &str) -> String {
    x.to_string()
}

#[test]
fn trims_unicode_whitespace() {
    assert_eq!(trim_str("  \t hello world \n"), "hello world");
    assert_eq!(trim_str("\u{3000}x\u{a0}"), "x");
    assert_eq!(trim_str("   "), "");
    assert_eq!(trim_end_str("  line \r\n"), "  line");
    assert!(blank(" \n\t"));
    assert!(blank(""));
    assert!(!blank(" a "));
}

#[test]
fn decimal_text_of_numbers() {
    assert_eq!(usize_to_decimal(0), "0");
    assert_eq!(usize_to_decimal(7), "7");
    assert_eq!(usize_to_decimal(120), "120");
    assert_eq!(usize_to_decimal(1009), "1009");
}

#[test]
fn joins_and_prefixes() {
    assert_eq!(join_strings(&vec![s("a"), s("b"), s("c")], ", "), "a, b, c");
    assert_eq!(join_strings(&vec![], ", "), "");
    assert_eq!(join_strings(&vec![s("only")], ", "), "only");
    assert!(starts_with("~/git/x", "~/"));
    assert!(!starts_with("/tmp", "~/"));
    assert!(!starts_with("~", "~/"));
}

#[test]
fn last_non_blank_line() {
    assert_eq!(last_line_not_blank("a\nb\n  \n"), Some(s("b")));
    assert_eq!(last_line_not_blank("first\r\nsecond\r\n"), Some(s("second")));
    assert_eq!(last_line_not_blank("one"), Some(s("one")));
    assert_eq!(last_line_not_blank(" \n \n"), None);
    assert_eq!(last_line_not_blank(""), None);
}

#[test]
fn joins_paths_like_path_join() {
    assert_eq!(join("/home/alice", "git/x"), "/home/alice/git/x");
    assert_eq!(join("/home/alice/", "git"), "/home/alice/git");
    assert_eq!(join("/home/alice", "/etc"), "/etc");
    assert_eq!(join("", "x"), "x");
}

#[test]
fn new_repositories_get_the_defaults() {
    assert_eq!(default_poll_interval(), 60);
    let r = RepoConfig::new("my-project", "~/git/my-project", "antigravity", None, Some("gpt"));
    assert_eq!(r.name, "my-project");
    assert_eq!(r.executor, "antigravity");
    assert_eq!(r.poll_interval_secs, 60);
    assert_eq!(r.pre_prompt, None);
    assert_eq!(r.model, Some(s("gpt")));
    assert_eq!(r.max_worker_count, 1);
    assert!(!r.in_repo);
    assert!(!r.no_sandbox);
    assert_eq!(r.docker_image_name, "lelouch");
    assert_eq!(r.effective_max_workers(), 1);
}

#[test]
fn expands_the_home_directory() {
    assert_eq!(expand_home("~/git/p", Some(s("/home/a"))).ok(), Some(s("/home/a/git/p")));
    assert_eq!(expand_home("/tmp/other", None).ok(), Some(s("/tmp/other")));
    assert!(matches!(expand_home("~/git/p", None), Err(LelouchError::NoHomeDirectory)));
    assert_eq!(expand_home("~x", None).ok(), Some(s("~x")));
    assert_eq!(expand_home("~", Some(s("/home/a"))).ok(), Some(s("/home/a")));
    assert!(matches!(expand_home("~", None), Err(LelouchError::NoHomeDirectory)));
}

#[test]
fn config_path_in_the_config_directory() {
    assert_eq!(config_path_in(Some(s("/home/a/.config/lelouch"))).ok(), Some(s("/home/a/.config/lelouch/config.toml")));
    assert!(matches!(config_path_in(None), Err(LelouchError::NoConfigDirectory)));
}

#[test]
fn add_repository_refuses_a_duplicate_path() {
    let mut c = Config::empty();
    assert!(c.add_repository("a", "/tmp/a", "gemini", Some("be brief"), None).is_ok());
    assert!(c.add_repository("b", "/tmp/b", "cursor-agent", None, None).is_ok());
    let e = c.add_repository("c", "/tmp/a", "gemini", None, None).unwrap_err();
    assert_eq!(e.message(), "repository with path '/tmp/a' already exists in config");
    assert_eq!(c.repositories.len(), 2);
    assert_eq!(c.repositories[0].pre_prompt, Some(s("be brief")));
    assert_eq!(c.repositories[1].name, "b");
}

#[test]
fn find_repo_by_name() {
    let mut c = Config::empty();
    c.add_repository("alpha", "/a", "gemini", None, None).unwrap();
    c.add_repository("beta", "/b", "gemini", None, None).unwrap();
    assert_eq!(c.find_repo("beta").unwrap().path, "/b");
    let e = c.find_repo("gamma").unwrap_err();
    assert_eq!(e.message(), "repository 'gamma' not found in config. Available: alpha, beta");
}

#[test]
fn error_messages() {
    assert_eq!(LelouchError::NoHomeDirectory.message(), "could not determine home directory");
    assert_eq!(LelouchError::NoAppDirectory.message(), "could not determine app directory");
    assert_eq!(LelouchError::UnknownExecutor { name: s("vim") }.message(), "unknown executor: vim");
    assert_eq!(
        LelouchError::ExecutorFailed { executor: s("gemini"), task_id: s("t-1") }.message(),
        "gemini failed for task t-1"
    );
    assert_eq!(LelouchError::InvalidUtf8 { executor: s("antigravity") }.message(), "antigravity output was not valid UTF-8");
    assert_eq!(LelouchError::NoResultObject.message(), "no valid result object in agent JSON output");
}

#[test]
fn beads_command_lines() {
    assert_eq!(BeadsDb::ready_args(), vec!["ready", "--json", "--limit", "0"]);
    assert_eq!(BeadsDb::full_scan_args(), vec!["list", "--json", "--status", "open", "--limit", "0"]);
    assert_eq!(BeadsDb::set_in_progress_args("x-1"), vec!["set-state", "x-1", "in_progress"]);
    assert_eq!(BeadsDb::set_open_args("x-1"), vec!["set-state", "x-1", "open"]);
    assert_eq!(BeadsDb::set_complete_args("x-1"), vec!["close", "x-1"]);
    assert_eq!(BeadsDb::add_comment_args("x-1", "done"), vec!["comments", "add", "x-1", "done"]);
    let c = BeadsDb::create_deferred_args("Fix typo", "+2h");
    assert_eq!(c, vec!["create", "--title", "Fix typo", "--type", "task", "--defer", "+2h", "--json", "--silent"]);
    assert_eq!(BeadsDb::command_line(&BeadsDb::ready_args()), "bd ready --json --limit 0");
    assert_eq!(
        BeadsDb::failure_message(&BeadsDb::set_open_args("x"), "exit status: 1", "  no such issue\n"),
        "bd set-state x open failed (exit exit status: 1): no such issue"
    );
    assert_eq!(
        BeadsDb::spawn_failure_message(&BeadsDb::ready_args(), "/r"),
        "failed to execute bd ready --json --limit 0 in /r"
    );
    assert_eq!(BeadsDb::defer_or_now(None), "+0s");
    assert_eq!(BeadsDb::defer_or_now(Some("tomorrow")), "tomorrow");
}

#[test]
fn git_command_lines() {
    assert_eq!(GitVcs::worktree_add_args("/w/p-0"), vec!["worktree", "add", "-f", "/w/p-0"]);
    assert_eq!(GitVcs::worktree_remove_args("/w/p-0"), vec!["worktree", "remove", "--force", "/w/p-0"]);
    assert_eq!(GitVcs::fetch_args(), vec!["fetch", "--quiet"]);
    assert_eq!(GitVcs::merge_base_args(0), vec!["merge-base", "HEAD", "@{u}"]);
    assert_eq!(GitVcs::merge_base_args(1), vec!["merge-base", "HEAD", "origin/main"]);
    assert_eq!(GitVcs::merge_base_args(2), vec!["merge-base", "HEAD", "origin/master"]);
    assert_eq!(GitVcs::merge_base_args(3), vec!["rev-parse", "HEAD"]);
    assert_eq!(GitVcs::merge_base_from(0, true, "abc123\n"), Some(s("abc123")));
    assert_eq!(GitVcs::merge_base_from(1, false, "fatal"), None);
    assert_eq!(GitVcs::merge_base_from(3, false, "def\n"), Some(s("def")));
    assert_eq!(GitVcs::reset_args("abc"), vec!["reset", "--hard", "abc"]);
    assert_eq!(GitVcs::clean_args(), vec!["clean", "-fd"]);
}

#[test]
fn git_mounts() {
    let p = GitVcs::mount_paths_with_home("/repo", Some(s("/home/a")));
    assert_eq!(p.git_dir, "/repo/.git");
    assert_eq!(p.gitconfig, Some(s("/home/a/.gitconfig")));
    assert_eq!(p.config_git, Some(s("/home/a/.config/git")));
    let m = GitVcs::required_mounts(&p, true, false, true);
    assert_eq!(m.len(), 2);
    assert_eq!((m[0].host.as_str(), m[0].container.as_str(), m[0].read_only), ("/repo/.git", "/repo/.git", false));
    assert_eq!((m[1].host.as_str(), m[1].container.as_str(), m[1].read_only), ("/home/a/.config/git", "/root/.config/git", true));
    let q = GitVcs::mount_paths_with_home("/repo", None);
    assert_eq!(GitVcs::required_mounts(&q, false, true, true).len(), 0);
}

#[test]
fn worktree_paths_and_sync() {
    let m = WorktreeManager::new(s("proj"), s("/repo"), 2);
    assert_eq!(m.worktree_path_in("/data/lelouch/worktrees", 1), "/data/lelouch/worktrees/proj-1");
    assert_eq!(WorktreeManager::worktrees_dir_in(Some(s("/data/lelouch"))).ok(), Some(s("/data/lelouch/worktrees")));
    assert!(matches!(WorktreeManager::worktrees_dir_in(None), Err(LelouchError::NoAppDirectory)));
    assert_eq!(m.worktree_name(7), "proj-7");
    assert_ne!(m.worktree_path_in("/d", 1), m.worktree_path_in("/d", 11));
    assert_eq!(m.worktree_path_in("/d/", 0), "/d/proj-0");
    let entries = vec![s("proj-0"), s("proj-25"), s("proj-web-3"), s("other-1"), s("proj-3"), s("proj-03"), s("proj-")];
    let plan = m.sync_worktrees(&entries);
    assert_eq!(plan.create, vec![1]);
    assert_eq!(plan.remove, vec![s("proj-25"), s("proj-3")]);
    let plan = m.sync_worktrees(&vec![]);
    assert_eq!(plan.create, vec![0, 1]);
    assert!(plan.remove.is_empty());
}

#[test]
fn command_line_helpers() {
    assert_eq!(init_repo_name(Some(s("n")), Some(s("dir"))), "n");
    assert_eq!(init_repo_name(None, Some(s("dir"))), "dir");
    assert_eq!(init_repo_name(None, None), "unnamed");
    assert_eq!(log_filter(true), "lelouch=debug");
    assert_eq!(log_filter(false), "lelouch=info");
    let r = RepoConfig::new("p", "/tmp/p", "gemini", None, None);
    assert_eq!(status_entry(&r, 3), "  p (/tmp/p)\n    executor: gemini\n    ready tasks: 3\n");
}

#[test]
fn lelouch_directories_are_named_lelouch() {
    assert_eq!(app_dirs_names(), ("", "", "lelouch"));
}
