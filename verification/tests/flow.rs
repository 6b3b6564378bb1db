use lelouch::config::RepoConfig;
use lelouch::daemon::{is_repo_state_key, latest_by_name, plan_reload, worker_state_key, worker_state_keys, ConfigWatch};
use lelouch::dispatch::{final_comment_action, Dispatch, DispatchAction, DispatchEvent, ExecutionOutcome, Phase};
use lelouch::executor::{build_prompt, container_invocation_with_home, image_build_invocation, resolve_executor, uses_container, ExecutorKind, Mount, OutputLog};
use lelouch::executors::{AntigravityExecutor, CursorAgentExecutor, GeminiExecutor};
use lelouch::error::LelouchError;
use lelouch::scheduler::Scheduler;
use lelouch::shutdown::{settle, shutdown_step, wake_for, Activity, ShutdownPhase, ShutdownStep, Wake};
use lelouch::status::{checked_status_table, byte_boundary, exceeds_bytes, fits_in_table, key_less, prefix_bytes, status_table, StreamAccumulator, WorkerStatus};
use lelouch::work_db::Task;

fn s(x: &str) -> String {
    x.to_string()
}

fn task(id: &str, title: &str, desc: Option<&str>) -> Task {
    Task {
        id: s(id),
        title: s(title),
        description: desc.map(s),
        status: s("open"),
        priority: 2,
        issue_type: s("task"),
        owner: None,
        created_at: 0,
        updated_at: None,
        defer_until: None,
    }
}

fn ids(v: &[&str]) -> Vec<String> {
    v.iter().map(|x| s(x)).collect()
}

#[test]
fn scheduler_hands_out_worktrees_from_the_top() {
    let mut sch = Scheduler::new(2);
    assert_eq!(sch.available, vec![0, 1]);
    let picks = sch.process_ready(&ids(&["a", "b", "c"]), false);
    assert_eq!(picks.iter().map(|p| (p.task, p.worktree)).collect::<Vec<_>>(), vec![(0, 1), (1, 0)]);
    assert!(sch.available.is_empty());
    assert!(sch.is_in_flight(&s("a")));
    assert!(sch.is_in_flight(&s("b")));
    assert!(!sch.is_in_flight(&s("c")));
}

#[test]
fn scheduler_skips_tasks_in_flight() {
    let mut sch = Scheduler::new(2);
    sch.process_ready(&ids(&["a"]), false);
    let picks = sch.process_ready(&ids(&["a", "b"]), false);
    assert_eq!(picks.iter().map(|p| (p.task, p.worktree)).collect::<Vec<_>>(), vec![(1, 0)]);
    assert_eq!(sch.running.len(), 2);
}

#[test]
fn scheduler_dry_run_changes_nothing() {
    let mut sch = Scheduler::new(3);
    let picks = sch.process_ready(&ids(&["a", "b"]), true);
    assert_eq!(picks.iter().map(|p| (p.task, p.worktree)).collect::<Vec<_>>(), vec![(0, 2), (1, 2)]);
    assert_eq!(sch.available, vec![0, 1, 2]);
    assert!(sch.running.is_empty());
}

#[test]
fn scheduler_finish_frees_the_worktree() {
    let mut sch = Scheduler::new(1);
    sch.process_ready(&ids(&["a", "b"]), false);
    assert!(sch.available.is_empty());
    sch.finish(&s("a"));
    assert_eq!(sch.available, vec![0]);
    assert!(!sch.is_in_flight(&s("a")));
    sch.finish(&s("zzz"));
    assert_eq!(sch.available, vec![0]);
    let picks = sch.process_ready(&ids(&["b"]), false);
    assert_eq!(picks.len(), 1);
}

fn repo(name: &str, path: &str) -> RepoConfig {
    RepoConfig::new(name, path, "gemini", None, None)
}

#[test]
fn reload_stops_removed_and_changed_and_starts_new() {
    let current = vec![repo("a", "/a"), repo("b", "/b"), repo("c", "/c")];
    let loaded = vec![repo("a", "/a"), repo("b", "/b2"), repo("d", "/d")];
    let plan = plan_reload(&current, &loaded);
    let mut stop = plan.stop.clone();
    stop.sort();
    assert_eq!(stop, vec![s("b"), s("c")]);
    let mut start: Vec<String> = plan.start.iter().map(|r| r.name.clone()).collect();
    start.sort();
    assert_eq!(start, vec![s("b"), s("d")]);
    assert_eq!(plan.start.iter().find(|r| r.name == "b").unwrap().path, "/b2");
    assert_eq!(plan.current.len(), 3);
}

#[test]
fn later_entries_replace_earlier_ones_of_the_same_name() {
    let loaded = vec![repo("a", "/one"), repo("b", "/b"), repo("a", "/two")];
    let fresh = latest_by_name(&loaded);
    assert_eq!(fresh.len(), 2);
    assert_eq!(fresh.iter().find(|r| r.name == "a").unwrap().path, "/two");
    let plan = plan_reload(&vec![], &loaded);
    assert!(plan.stop.is_empty());
    assert_eq!(plan.start.len(), 2);
}

#[test]
fn worker_state_keys_and_cleanup() {
    let mut r = repo("proj", "/p");
    r.max_worker_count = 3;
    assert_eq!(worker_state_keys(&r), vec![s("proj-0"), s("proj-1"), s("proj-2")]);
    r.in_repo = true;
    assert_eq!(worker_state_keys(&r), vec![s("proj")]);
    assert_eq!(worker_state_key(&r, 5), "proj");
    assert!(is_repo_state_key("proj", "proj"));
    assert!(is_repo_state_key("proj-2", "proj"));
    assert!(!is_repo_state_key("project-2", "proj"));
    assert!(!is_repo_state_key("other", "proj"));
}

#[test]
fn stopping_a_repo_keeps_keys_of_a_longer_name() {
    assert!(!is_repo_state_key("app-web-0", "app"));
    assert!(!is_repo_state_key("app-web", "app"));
    assert!(is_repo_state_key("app-web-0", "app-web"));
    assert!(is_repo_state_key("app-10", "app"));
    assert!(!is_repo_state_key("app-", "app"));
    assert!(!is_repo_state_key("app-01", "app"));
    assert!(is_repo_state_key("app-0", "app"));
}

#[test]
fn prompts() {
    let t = task("x-1", "Fix bug", Some("It crashes"));
    assert_eq!(build_prompt(&t, None), "Work on issue x-1: Fix bug\n\nDescription:\nIt crashes");
    assert_eq!(
        build_prompt(&t, Some("  Write tests first. \n")),
        "Write tests first.\n\nWork on issue x-1: Fix bug\n\nDescription:\nIt crashes"
    );
    let u = task("x-2", "Typo", Some(""));
    assert_eq!(build_prompt(&u, Some("   ")), "Work on issue x-2: Typo");
    assert_eq!(AntigravityExecutor::build_prompt(&u, None), "Work on issue x-2: Typo");
    assert_eq!(AntigravityExecutor::build_prompt(&u, Some(" Be brief. ")), "Be brief.\n\nWork on issue x-2: Typo");
    assert_eq!(AntigravityExecutor::build_prompt(&u, Some("  ")), "Work on issue x-2: Typo");
}

#[test]
fn executors_by_name() {
    assert!(matches!(resolve_executor("gemini"), Ok(ExecutorKind::Gemini)));
    assert!(matches!(resolve_executor("cursor-agent"), Ok(ExecutorKind::CursorAgent)));
    assert!(matches!(resolve_executor("antigravity"), Ok(ExecutorKind::Antigravity)));
    match resolve_executor("vim") {
        Err(e) => assert_eq!(e.message(), "unknown executor: vim"),
        Ok(_) => panic!("vim is no executor"),
    }
    assert_eq!(ExecutorKind::CursorAgent.name(), "cursor-agent");
}

#[test]
fn container_command_lines() {
    let mut r = repo("p", "/p");
    let mounts = vec![Mount { host: s("/p/.git"), container: s("/p/.git"), read_only: false }, Mount {
        host: s("/h/.gitconfig"),
        container: s("/root/.gitconfig"),
        read_only: true,
    }];
    let args = vec![s("gemini"), s("--prompt"), s("hi")];
    let inv = container_invocation_with_home(&r, Some(".gemini"), "/w/p-0", Some(s("/h")), &mounts, &args);
    assert_eq!(inv.program, "docker");
    assert_eq!(inv.cwd, None);
    assert_eq!(
        inv.args,
        vec![
            "run", "--rm", "-i", "-v", "/h/.gemini:/root/.gemini", "-v", "/p/.git:/p/.git", "-v",
            "/h/.gitconfig:/root/.gitconfig:ro", "-v", "/w/p-0:/w/p-0", "-w", "/w/p-0", "lelouch", "gemini",
            "--prompt", "hi"
        ]
    );
    r.no_sandbox = true;
    let inv = container_invocation_with_home(&r, Some(".gemini"), "/w/p-0", Some(s("/h")), &mounts, &args);
    assert_eq!(inv.program, "gemini");
    assert_eq!(inv.args, vec!["--prompt", "hi"]);
    assert_eq!(inv.cwd, Some(s("/w/p-0")));
}

#[test]
fn output_log() {
    let mut o = OutputLog::new();
    o.push_stdout_line("out one");
    assert_eq!(o.push_stderr_line("warn  \n"), "[stderr] warn");
    o.push_stdout_line("out two");
    assert_eq!(o.combined(), "out one\nout two\n[stderr] warn  \n");
}

#[test]
fn executor_command_lines_and_outcomes() {
    let g = GeminiExecutor::new();
    assert_eq!(g.command("p", Some("m1")), vec!["gemini", "--prompt", "p", "--yolo", "-m", "m1"]);
    assert_eq!(g.credential_dir(), ".gemini");
    assert_eq!(g.finish("t", true, s("  \n")).ok(), Some(None));
    assert_eq!(g.finish("t", true, s("done\n")).ok(), Some(Some(s("done\n"))));
    assert_eq!(g.finish("t", false, s("x")).unwrap_err().message(), "gemini failed for task t");
    let c = CursorAgentExecutor::new();
    assert_eq!(
        c.command("p", None),
        vec!["agent", "-p", "--output-format", "json", "--workspace", "/workspace", "--force", "p"]
    );
    assert_eq!(c.name(), "cursor-agent");
    let a = AntigravityExecutor::new();
    assert_eq!(a.command("p"), vec!["antigravity", "--prompt", "p"]);
    assert!(matches!(a.finish("t", true, None), Err(LelouchError::InvalidUtf8 { .. })));
    assert_eq!(a.finish("t", true, Some(s("ok"))).ok(), Some(Some(s("ok"))));
}

#[test]
fn cursor_agent_result_selection() {
    let out = "  log line\n{\"result\":\"hi\"}\n\n";
    assert_eq!(
        CursorAgentExecutor::result_candidates(out),
        vec![s("log line\n{\"result\":\"hi\"}"), s("{\"result\":\"hi\"}")]
    );
    assert_eq!(CursorAgentExecutor::result_candidates("   "), vec![s("")]);
    let first_fails = vec![None, Some(Some(s("hi")))];
    assert_eq!(CursorAgentExecutor::select_result(&first_fails).ok(), Some(Some(s("hi"))));
    let blank_result = vec![Some(Some(s("  ")))];
    assert_eq!(CursorAgentExecutor::select_result(&blank_result).ok(), Some(None));
    let none = vec![None, None];
    assert!(matches!(CursorAgentExecutor::select_result(&none), Err(LelouchError::NoResultObject)));
    assert!(matches!(c_fail(), Err(LelouchError::ExecutorFailed { .. })));
}

fn c_fail() -> Result<Option<String>, LelouchError> {
    CursorAgentExecutor::new().finish("t", false, &vec![Some(None)])
}

#[test]
fn comment_after_success() {
    let a = final_comment_action(&Some(s("c1")), Some(s("line\n")), &Some(s("answer")));
    match a {
        DispatchAction::UpdateComment { comment_id, body } => {
            assert_eq!(comment_id, "c1");
            assert_eq!(body, "line\n\n\n---\nResult:\nanswer");
        }
        other => panic!("unexpected {:?}", other),
    }
    let a = final_comment_action(&Some(s("c1")), Some(s("line\n")), &Some(s("  ")));
    assert!(matches!(a, DispatchAction::UpdateComment { body, .. } if body == "line\n"));
    let a = final_comment_action(&None, None, &Some(s("answer")));
    assert!(matches!(a, DispatchAction::AddComment { body } if body == "answer"));
    let a = final_comment_action(&None, None, &Some(s(" ")));
    assert!(matches!(a, DispatchAction::MarkComplete));
    let a = final_comment_action(&Some(s("c1")), None, &Some(s("answer")));
    assert!(matches!(a, DispatchAction::AddComment { .. }));
}

#[test]
fn dispatch_success_with_streaming() {
    let mut d = Dispatch::new(false, s("/repo"), s("cursor-agent"), 1);
    assert!(matches!(d.step(DispatchEvent::Begin), DispatchAction::ResolveWorktree { index: 1 }));
    assert!(matches!(d.step(DispatchEvent::WorktreeResolved(Some(s("/w/p-1")))), DispatchAction::ResetWorktree { index: 1 }));
    assert!(matches!(d.step(DispatchEvent::Reset(true)), DispatchAction::MarkInProgress));
    assert!(matches!(d.step(DispatchEvent::Done), DispatchAction::OpenStreamingComment));
    match d.step(DispatchEvent::StreamingComment(Some(s("c9")))) {
        DispatchAction::Execute { kind, worktree_path, stream } => {
            assert_eq!(kind, ExecutorKind::CursorAgent);
            assert_eq!(worktree_path, "/w/p-1");
            assert!(stream);
        }
        other => panic!("unexpected {:?}", other),
    }
    assert!(matches!(
        d.step(DispatchEvent::Executed(ExecutionOutcome::Succeeded(Some(s("done"))))),
        DispatchAction::CollectStreamedOutput
    ));
    assert!(matches!(d.step(DispatchEvent::Streamed(Some(s("out\n")))), DispatchAction::UpdateComment { .. }));
    assert!(matches!(d.step(DispatchEvent::Done), DispatchAction::MarkComplete));
    assert!(matches!(d.step(DispatchEvent::Done), DispatchAction::Release { interrupted: false }));
    assert!(matches!(d.step(DispatchEvent::Done), DispatchAction::Finished));
    assert_eq!(d.phase, Phase::Finished);
}

#[test]
fn dispatch_in_repo_without_comment() {
    let mut d = Dispatch::new(true, s("/repo"), s("gemini"), 0);
    assert!(matches!(d.step(DispatchEvent::Begin), DispatchAction::ResetRepository));
    assert!(matches!(d.step(DispatchEvent::Reset(true)), DispatchAction::MarkInProgress));
    assert!(matches!(d.step(DispatchEvent::Done), DispatchAction::OpenStreamingComment));
    match d.step(DispatchEvent::StreamingComment(None)) {
        DispatchAction::Execute { worktree_path, stream, .. } => {
            assert_eq!(worktree_path, "/repo");
            assert!(!stream);
        }
        other => panic!("unexpected {:?}", other),
    }
    assert!(matches!(
        d.step(DispatchEvent::Executed(ExecutionOutcome::Succeeded(None))),
        DispatchAction::MarkComplete
    ));
}

#[test]
fn dispatch_failures_reopen_the_task() {
    let mut d = Dispatch::new(true, s("/repo"), s("vim"), 0);
    d.step(DispatchEvent::Begin);
    d.step(DispatchEvent::Reset(true));
    assert!(matches!(d.step(DispatchEvent::Done), DispatchAction::Reopen));
    assert!(matches!(d.step(DispatchEvent::Done), DispatchAction::Release { interrupted: false }));

    let mut d = Dispatch::new(true, s("/repo"), s("gemini"), 0);
    d.step(DispatchEvent::Begin);
    d.step(DispatchEvent::Reset(true));
    d.step(DispatchEvent::Done);
    d.step(DispatchEvent::StreamingComment(None));
    assert!(matches!(d.step(DispatchEvent::Executed(ExecutionOutcome::Failed)), DispatchAction::Reopen));
    assert!(matches!(d.step(DispatchEvent::Done), DispatchAction::Release { interrupted: false }));
}

#[test]
fn dispatch_shutdown_reopens_and_releases_interrupted() {
    let mut d = Dispatch::new(false, s("/repo"), s("gemini"), 0);
    d.step(DispatchEvent::Begin);
    d.step(DispatchEvent::WorktreeResolved(Some(s("/w"))));
    d.step(DispatchEvent::Reset(true));
    d.step(DispatchEvent::Done);
    d.step(DispatchEvent::StreamingComment(Some(s("c"))));
    assert!(matches!(d.step(DispatchEvent::Executed(ExecutionOutcome::Interrupted)), DispatchAction::Reopen));
    assert!(matches!(d.step(DispatchEvent::Done), DispatchAction::Release { interrupted: true }));
}

#[test]
fn dispatch_without_worktree_is_released() {
    let mut d = Dispatch::new(false, s("/repo"), s("gemini"), 0);
    d.step(DispatchEvent::Begin);
    assert!(!d.accepts(&DispatchEvent::Done));
    assert!(matches!(d.step(DispatchEvent::WorktreeResolved(None)), DispatchAction::Release { interrupted: false }));
}

#[test]
fn dispatch_failed_reset_releases_without_running() {
    let mut d = Dispatch::new(false, s("/repo"), s("gemini"), 2);
    d.step(DispatchEvent::Begin);
    assert!(matches!(d.step(DispatchEvent::WorktreeResolved(Some(s("/w/p-2")))), DispatchAction::ResetWorktree { index: 2 }));
    assert!(!d.accepts(&DispatchEvent::Done));
    assert!(matches!(d.step(DispatchEvent::Reset(false)), DispatchAction::Release { interrupted: false }));
    assert!(matches!(d.step(DispatchEvent::Done), DispatchAction::Finished));
    assert_eq!(d.phase, Phase::Finished);

    let mut d = Dispatch::new(true, s("/repo"), s("gemini"), 0);
    assert!(matches!(d.step(DispatchEvent::Begin), DispatchAction::ResetRepository));
    assert!(matches!(d.step(DispatchEvent::Reset(false)), DispatchAction::Release { interrupted: false }));
}

#[test]
fn status_table_text() {
    assert_eq!(status_table(&vec![]), None);
    let entries = vec![
        WorkerStatus { key: s("zeta-0"), task: None },
        WorkerStatus { key: s("alpha-0"), task: Some(task("a-1", "Implement status table", None)) },
    ];
    let t = status_table(&entries).unwrap();
    let expected = format!(
        "\n{:<20} | {:<10} | Issue\n{:-<20}-+-{:-<10}-+-{:-<50}\n{:<20} | {:<10} | {}\n{:<20} | {:<10} | -\n",
        "Repository", "Status", "", "", "", "alpha-0", "Executing", "a-1 Implement status table", "zeta-0", "Idle"
    );
    assert_eq!(t, expected);
}

#[test]
fn status_table_truncates() {
    let long_title = "x".repeat(60);
    let entries = vec![WorkerStatus {
        key: s("a-very-long-repository-name-0"),
        task: Some(task("t-1", &long_title, None)),
    }];
    let t = status_table(&entries).unwrap();
    let issue = format!("t-1 {}", long_title);
    let row = format!("{}... | {:<10} | {}...\n", &"a-very-long-repository-name-0"[..17], "Executing", &issue[..44]);
    assert!(t.ends_with(&row));
    assert!(key_less("alpha", "beta"));
    assert!(key_less("ab", "abc"));
    assert!(!key_less("abc", "ab"));
    assert!(!key_less("same", "same"));
}

#[test]
fn streaming_accumulates_lines() {
    let mut a = StreamAccumulator::new();
    assert_eq!(a.tick_update(), None);
    a.push_chunk("one");
    a.push_chunk("[stderr] two");
    assert_eq!(a.tick_update(), Some(s("one\n[stderr] two\n")));
    let (last, all) = a.finish();
    assert_eq!(last, Some(s("one\n[stderr] two\n")));
    assert_eq!(all, "one\n[stderr] two\n");
    let (last, all) = StreamAccumulator::new().finish();
    assert_eq!(last, None);
    assert_eq!(all, "");
}

#[test]
fn two_phase_shutdown() {
    let mut p = ShutdownPhase::new();
    assert!(!p.is_graceful());
    assert_eq!(p.advance(), (1, Wake::Graceful));
    assert!(p.is_graceful() && !p.is_immediate());
    assert_eq!(p.advance(), (2, Wake::Immediate));
    assert!(p.is_immediate() && p.is_graceful());
    assert_eq!(p.advance().0, 2);
    assert_eq!(settle(0), 1);
    assert_eq!(settle(2), 2);
    assert_eq!(settle(7), 2);
    assert_eq!(wake_for(0), Wake::Nobody);
}

#[test]
fn byte_lengths_and_boundaries() {
    let e = "é".repeat(11);
    assert!(exceeds_bytes(&e, 20));
    assert!(!exceeds_bytes("abc", 3));
    assert!(exceeds_bytes("abcd", 3));
    assert!(!byte_boundary(&e, 17));
    assert!(byte_boundary(&e, 16));
    assert!(byte_boundary("abc", 3));
    assert!(!byte_boundary("abc", 4));
    assert_eq!(prefix_bytes(&e, 4), "éé");
    assert!(!fits_in_table(&WorkerStatus { key: e.clone(), task: None }));
    let ok = "abc".to_string() + &"é".repeat(10);
    assert!(fits_in_table(&WorkerStatus { key: ok, task: None }));
    assert!(fits_in_table(&WorkerStatus { key: s("short"), task: Some(task("t", "title", None)) }));
}

#[test]
fn shutdown_policy_by_phase() {
    assert_eq!(shutdown_step(0, Activity::Polling), ShutdownStep::Continue);
    assert_eq!(shutdown_step(0, Activity::RunningTask), ShutdownStep::Continue);
    assert_eq!(shutdown_step(1, Activity::Polling), ShutdownStep::StopPolling);
    assert_eq!(shutdown_step(1, Activity::RunningTask), ShutdownStep::Continue);
    assert_eq!(shutdown_step(2, Activity::Polling), ShutdownStep::StopPolling);
    assert_eq!(shutdown_step(2, Activity::RunningTask), ShutdownStep::Interrupt);
}

#[test]
fn config_reloads_only_when_newer() {
    let mut w = ConfigWatch::new();
    assert!(!w.observe(0, 0));
    assert!(w.observe(100, 5));
    assert!(!w.observe(100, 5));
    assert!(!w.observe(99, 999));
    assert!(w.observe(100, 6));
    assert!(w.observe(101, 0));
    assert_eq!((w.last_secs, w.last_nanos), (101, 0));
}

#[test]
fn image_is_built_before_a_container_runs() {
    let r = RepoConfig::new("p", "/tmp/p", "gemini", None, None);
    assert!(uses_container(&r));
    let b = image_build_invocation(&r, "/tmp/p").unwrap();
    assert_eq!(b.program, "docker");
    assert_eq!(b.args, vec![s("build"), s("-t"), r.docker_image_name.clone(), s("/tmp/p")]);
    assert_eq!(b.cwd, None);
    let mut native = r.clone();
    native.no_sandbox = true;
    assert!(!uses_container(&native));
    assert!(image_build_invocation(&native, "/tmp/p").is_none());
}

#[test]
fn checked_table_names_the_worker_that_cannot_be_cut() {
    assert_eq!(checked_status_table(&vec![]), Ok(None));
    let ok = WorkerStatus { key: s("proj-0"), task: None };
    let bad = WorkerStatus { key: s("ééééééééééééééééé"), task: None };
    assert!(matches!(checked_status_table(&vec![ok]), Ok(Some(_))));
    let ok = WorkerStatus { key: s("proj-0"), task: None };
    assert_eq!(checked_status_table(&vec![ok, bad]), Err(1));
}
