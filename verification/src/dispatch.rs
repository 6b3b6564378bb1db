//! The decisions of dispatching one task: the steps between polling it and releasing
//! it, as a state machine. The caller performs each action and reports what came of it.
use vstd::prelude::*;
use vstd::string::*;
use crate::executor::{kind_name, resolve_executor, ExecutorKind};
use crate::text::{blank, is_blank};
use crate::work_db::opt_view;

verus! {

/// Where a dispatch stands.
#[derive(Clone, Copy, Debug, PartialEq, Eq)]
pub enum Phase {
    Start,
    ResolvingWorktree,
    Resetting,
    MarkingInProgress,
    OpeningComment,
    Executing,
    Collecting,
    Commenting,
    Completing,
    Reopening,
    Releasing,
    Finished,
}

/// How running the executor ended.
#[derive(Debug)]
pub enum ExecutionOutcome {
    /// It succeeded, with the response (if any) to post on the task.
    Succeeded(Option<String>),
    /// It failed.
    Failed,
    /// A shutdown interrupted it.
    Interrupted,
}

/// What came of the last action.
#[derive(Debug)]
pub enum DispatchEvent {
    /// The dispatch begins.
    Begin,
    /// The worktree's path, or `None` when it could not be determined.
    WorktreeResolved(Option<String>),
    /// The reset of the worktree (or the repository) ended: `true` when it succeeded.
    Reset(bool),
    /// A state change, comment or release was done (whether it succeeded or not).
    Done,
    /// The id of the comment the output is streamed into, if one was opened.
    StreamingComment(Option<String>),
    /// The executor ended.
    Executed(ExecutionOutcome),
    /// The output streamed into the comment, when the streaming ended with one.
    Streamed(Option<String>),
}

/// What the caller is to do next.
#[derive(Debug)]
pub enum DispatchAction {
    /// Determine the path of worktree `index`.
    ResolveWorktree { index: usize },
    /// Reset worktree `index` to the latest upstream state.
    ResetWorktree { index: usize },
    /// Reset the repository itself to the latest upstream state.
    ResetRepository,
    /// Mark the task as in progress.
    MarkInProgress,
    /// Open a comment on the task that the output is streamed into.
    OpenStreamingComment,
    /// Run the executor in the worktree, streaming its output when `stream`.
    Execute { kind: ExecutorKind, worktree_path: String, stream: bool },
    /// Wait for the streamed output.
    CollectStreamedOutput,
    /// Replace the streaming comment's text.
    UpdateComment { comment_id: String, body: String },
    /// Post a comment on the task.
    AddComment { body: String },
    /// Mark the task as complete.
    MarkComplete,
    /// Move the task back to open.
    Reopen,
    /// Take the task out of flight; `interrupted` when a shutdown cut it short.
    Release { interrupted: bool },
    /// Nothing is left to do.
    Finished,
}

/// An execution outcome as plain values.
pub enum OutcomeView {
    Succeeded(Option<Seq<char>>),
    Failed,
    Interrupted,
}

/// An event as plain values.
pub enum EventView {
    Begin,
    WorktreeResolved(Option<Seq<char>>),
    Reset(bool),
    Done,
    StreamingComment(Option<Seq<char>>),
    Executed(OutcomeView),
    Streamed(Option<Seq<char>>),
}

/// An action as plain values.
pub enum ActionView {
    ResolveWorktree { index: usize },
    ResetWorktree { index: usize },
    ResetRepository,
    MarkInProgress,
    OpenStreamingComment,
    Execute { kind: ExecutorKind, worktree_path: Seq<char>, stream: bool },
    CollectStreamedOutput,
    UpdateComment { comment_id: Seq<char>, body: Seq<char> },
    AddComment { body: Seq<char> },
    MarkComplete,
    Reopen,
    Release { interrupted: bool },
    Finished,
}

impl View for DispatchEvent {
    type V = EventView;

    open spec fn view(&self) -> EventView {
        match self {
            DispatchEvent::Begin => EventView::Begin,
            DispatchEvent::WorktreeResolved(p) => EventView::WorktreeResolved(opt_view(*p)),
            DispatchEvent::Reset(ok) => EventView::Reset(*ok),
            DispatchEvent::Done => EventView::Done,
            DispatchEvent::StreamingComment(c) => EventView::StreamingComment(opt_view(*c)),
            DispatchEvent::Executed(o) => EventView::Executed(
                match o {
                    ExecutionOutcome::Succeeded(r) => OutcomeView::Succeeded(opt_view(*r)),
                    ExecutionOutcome::Failed => OutcomeView::Failed,
                    ExecutionOutcome::Interrupted => OutcomeView::Interrupted,
                },
            ),
            DispatchEvent::Streamed(s) => EventView::Streamed(opt_view(*s)),
        }
    }
}

impl View for DispatchAction {
    type V = ActionView;

    open spec fn view(&self) -> ActionView {
        match self {
            DispatchAction::ResolveWorktree { index } => ActionView::ResolveWorktree { index: *index },
            DispatchAction::ResetWorktree { index } => ActionView::ResetWorktree { index: *index },
            DispatchAction::ResetRepository => ActionView::ResetRepository,
            DispatchAction::MarkInProgress => ActionView::MarkInProgress,
            DispatchAction::OpenStreamingComment => ActionView::OpenStreamingComment,
            DispatchAction::Execute { kind, worktree_path, stream } => ActionView::Execute {
                kind: *kind,
                worktree_path: worktree_path@,
                stream: *stream,
            },
            DispatchAction::CollectStreamedOutput => ActionView::CollectStreamedOutput,
            DispatchAction::UpdateComment { comment_id, body } => ActionView::UpdateComment {
                comment_id: comment_id@,
                body: body@,
            },
            DispatchAction::AddComment { body } => ActionView::AddComment { body: body@ },
            DispatchAction::MarkComplete => ActionView::MarkComplete,
            DispatchAction::Reopen => ActionView::Reopen,
            DispatchAction::Release { interrupted } => ActionView::Release {
                interrupted: *interrupted,
            },
            DispatchAction::Finished => ActionView::Finished,
        }
    }
}

/// The executor configured by this name, if there is one.
pub open spec fn kind_named(name: Seq<char>) -> Option<ExecutorKind> {
    if name == kind_name(ExecutorKind::Antigravity) {
        Some(ExecutorKind::Antigravity)
    } else if name == kind_name(ExecutorKind::CursorAgent) {
        Some(ExecutorKind::CursorAgent)
    } else if name == kind_name(ExecutorKind::Gemini) {
        Some(ExecutorKind::Gemini)
    } else {
        None
    }
}

/// The name of each executor leads back to it.
pub proof fn lemma_kind_named(k: ExecutorKind)
    ensures
        kind_named(kind_name(k)) == Some(k),
{
    reveal_strlit("antigravity");
    reveal_strlit("cursor-agent");
    reveal_strlit("gemini");
    assert(kind_name(ExecutorKind::Antigravity).len() == 11);
    assert(kind_name(ExecutorKind::CursorAgent).len() == 12);
    assert(kind_name(ExecutorKind::Gemini).len() == 6);
}

/// What follows a successful run: with streamed output, the streaming comment gets it
/// (and the response under a `Result:` heading when the response is not blank); without,
/// a non-blank response is posted as a comment; otherwise the task is marked complete.
pub open spec fn comment_action(
    comment_id: Option<Seq<char>>,
    accumulated: Option<Seq<char>>,
    response: Option<Seq<char>>,
) -> ActionView {
    if comment_id is Some && accumulated is Some {
        let body = if response is Some && !is_blank(response->0) {
            accumulated->0 + "\n\n---\nResult:\n"@ + response->0
        } else {
            accumulated->0
        };
        ActionView::UpdateComment { comment_id: comment_id->0, body }
    } else if response is Some && !is_blank(response->0) {
        ActionView::AddComment { body: response->0 }
    } else {
        ActionView::MarkComplete
    }
}

/// The comment to write once the executor has succeeded (see `comment_action`).
pub fn final_comment_action(
    comment_id: &Option<String>,
    accumulated: Option<String>,
    response: &Option<String>,
) -> (a: DispatchAction)
    ensures
        a@ == comment_action(opt_view(*comment_id), opt_view(accumulated), opt_view(*response)),
{
    let response_text = match response {
        Some(r) => !blank(r.as_str()),
        None => false,
    };
    match (comment_id, accumulated) {
        (Some(cid), Some(acc)) => {
            let mut body = acc;
            if response_text {
                match response {
                    Some(r) => {
                        body.append("\n\n---\nResult:\n");
                        body.append(r.as_str());
                    },
                    None => {},
                }
            }
            DispatchAction::UpdateComment { comment_id: cid.clone(), body }
        },
        _ => {
            if response_text {
                match response {
                    Some(r) => DispatchAction::AddComment { body: r.clone() },
                    None => DispatchAction::MarkComplete,
                }
            } else {
                DispatchAction::MarkComplete
            }
        },
    }
}

/// The state of a dispatch as plain values.
#[verifier::ext_equal]
pub struct DispatchState {
    pub in_repo: bool,
    pub repo_path: Seq<char>,
    pub executor: Seq<char>,
    pub worktree: usize,
    pub phase: Phase,
    pub worktree_path: Seq<char>,
    pub kind: Option<ExecutorKind>,
    pub comment_id: Option<Seq<char>>,
    pub response: Option<Seq<char>>,
    pub succeeded: bool,
    pub interrupted: bool,
}

/// Whether the event answers the action of the phase.
pub open spec fn accepts(phase: Phase, e: EventView) -> bool {
    match phase {
        Phase::Start => e is Begin,
        Phase::ResolvingWorktree => e is WorktreeResolved,
        Phase::Resetting => e is Reset,
        Phase::OpeningComment => e is StreamingComment,
        Phase::Executing => e is Executed,
        Phase::Collecting => e is Streamed,
        Phase::Finished => true,
        _ => e is Done,
    }
}

/// After a successful run, the comment action and the phase it leads to.
pub open spec fn after_success(s: DispatchState, accumulated: Option<Seq<char>>) -> (
    DispatchState,
    ActionView,
) {
    let a = comment_action(s.comment_id, accumulated, s.response);
    if a is MarkComplete {
        (DispatchState { phase: Phase::Completing, ..s }, a)
    } else {
        (DispatchState { phase: Phase::Commenting, ..s }, a)
    }
}

/// The transition table of a dispatch: from a state and the event that answers its last
/// action, the next state and action.
pub open spec fn next(s: DispatchState, e: EventView) -> (DispatchState, ActionView) {
    match s.phase {
        Phase::Start => if s.in_repo {
            (
                DispatchState { phase: Phase::Resetting, worktree_path: s.repo_path, ..s },
                ActionView::ResetRepository,
            )
        } else {
            (
                DispatchState { phase: Phase::ResolvingWorktree, ..s },
                ActionView::ResolveWorktree { index: s.worktree },
            )
        },
        Phase::ResolvingWorktree => match e {
            EventView::WorktreeResolved(Some(p)) => (
                DispatchState { phase: Phase::Resetting, worktree_path: p, ..s },
                ActionView::ResetWorktree { index: s.worktree },
            ),
            _ => (
                DispatchState { phase: Phase::Releasing, ..s },
                ActionView::Release { interrupted: false },
            ),
        },
        Phase::Resetting => match e {
            EventView::Reset(true) => (
                DispatchState { phase: Phase::MarkingInProgress, ..s },
                ActionView::MarkInProgress,
            ),
            _ => (
                DispatchState { phase: Phase::Releasing, ..s },
                ActionView::Release { interrupted: false },
            ),
        },
        Phase::MarkingInProgress => match kind_named(s.executor) {
            Some(k) => (
                DispatchState { phase: Phase::OpeningComment, kind: Some(k), ..s },
                ActionView::OpenStreamingComment,
            ),
            None => (DispatchState { phase: Phase::Reopening, ..s }, ActionView::Reopen),
        },
        Phase::OpeningComment => match e {
            EventView::StreamingComment(c) => (
                DispatchState { phase: Phase::Executing, comment_id: c, ..s },
                ActionView::Execute {
                    kind: s.kind->0,
                    worktree_path: s.worktree_path,
                    stream: c is Some,
                },
            ),
            _ => (s, ActionView::Finished),
        },
        Phase::Executing => match e {
            EventView::Executed(OutcomeView::Succeeded(r)) => {
                let s2 = DispatchState { response: r, succeeded: true, ..s };
                if s.comment_id is Some {
                    (
                        DispatchState { phase: Phase::Collecting, ..s2 },
                        ActionView::CollectStreamedOutput,
                    )
                } else {
                    after_success(s2, None)
                }
            },
            EventView::Executed(OutcomeView::Interrupted) => (
                DispatchState { phase: Phase::Reopening, interrupted: true, ..s },
                ActionView::Reopen,
            ),
            _ => (DispatchState { phase: Phase::Reopening, ..s }, ActionView::Reopen),
        },
        Phase::Collecting => match e {
            EventView::Streamed(acc) => after_success(s, acc),
            _ => (s, ActionView::Finished),
        },
        Phase::Commenting => (
            DispatchState { phase: Phase::Completing, ..s },
            ActionView::MarkComplete,
        ),
        Phase::Completing => (
            DispatchState { phase: Phase::Releasing, ..s },
            ActionView::Release { interrupted: false },
        ),
        Phase::Reopening => (
            DispatchState { phase: Phase::Releasing, ..s },
            ActionView::Release { interrupted: s.interrupted },
        ),
        Phase::Releasing => (DispatchState { phase: Phase::Finished, ..s }, ActionView::Finished),
        Phase::Finished => (s, ActionView::Finished),
    }
}

/// A dispatch of one task to its repository's executor.
#[derive(Debug)]
pub struct Dispatch {
    pub in_repo: bool,
    pub repo_path: String,
    pub executor: String,
    pub worktree: usize,
    pub phase: Phase,
    pub worktree_path: String,
    pub kind: Option<ExecutorKind>,
    pub comment_id: Option<String>,
    pub response: Option<String>,
    pub succeeded: bool,
    pub interrupted: bool,
}

impl View for Dispatch {
    type V = DispatchState;

    open spec fn view(&self) -> DispatchState {
        DispatchState {
            in_repo: self.in_repo,
            repo_path: self.repo_path@,
            executor: self.executor@,
            worktree: self.worktree,
            phase: self.phase,
            worktree_path: self.worktree_path@,
            kind: self.kind,
            comment_id: opt_view(self.comment_id),
            response: opt_view(self.response),
            succeeded: self.succeeded,
            interrupted: self.interrupted,
        }
    }
}

/// The state invariant: a resolved executor from the comment step on, a result recorded
/// exactly from the successful run on, and an interruption only on the way to release.
pub open spec fn dispatch_inv(s: DispatchState) -> bool {
    &&& (s.phase is OpeningComment || s.phase is Executing || s.phase is Collecting) ==> s.kind is Some
    &&& (s.phase is Collecting || s.phase is Commenting || s.phase is Completing) ==> s.succeeded
    &&& (s.phase is Collecting) ==> s.comment_id is Some
    &&& (s.phase is Start || s.phase is ResolvingWorktree || s.phase is Resetting
        || s.phase is MarkingInProgress || s.phase is OpeningComment || s.phase is Executing
        || s.phase is Reopening) ==> !s.succeeded
    &&& s.interrupted ==> !s.succeeded
    &&& s.interrupted ==> (s.phase is Reopening || s.phase is Releasing || s.phase is Finished)
}

impl Dispatch {
    /// A dispatch about to begin, of a task given worktree `worktree` of a repository.
    pub fn new(in_repo: bool, repo_path: String, executor: String, worktree: usize) -> (d: Self)
        ensures
            d@ == (DispatchState {
                in_repo,
                repo_path: repo_path@,
                executor: executor@,
                worktree,
                phase: Phase::Start,
                worktree_path: seq![],
                kind: None,
                comment_id: None,
                response: None,
                succeeded: false,
                interrupted: false,
            }),
            dispatch_inv(d@),
    {
        Dispatch {
            in_repo,
            repo_path,
            executor,
            worktree,
            phase: Phase::Start,
            worktree_path: String::new(),
            kind: None,
            comment_id: None,
            response: None,
            succeeded: false,
            interrupted: false,
        }
    }

    /// Whether `e` answers the last action.
    pub fn accepts(&self, e: &DispatchEvent) -> (b: bool)
        ensures
            b == accepts(self.phase, e@),
    {
        match self.phase {
            Phase::Start => matches!(e, DispatchEvent::Begin),
            Phase::ResolvingWorktree => matches!(e, DispatchEvent::WorktreeResolved(_)),
            Phase::Resetting => matches!(e, DispatchEvent::Reset(_)),
            Phase::OpeningComment => matches!(e, DispatchEvent::StreamingComment(_)),
            Phase::Executing => matches!(e, DispatchEvent::Executed(_)),
            Phase::Collecting => matches!(e, DispatchEvent::Streamed(_)),
            Phase::Finished => true,
            _ => matches!(e, DispatchEvent::Done),
        }
    }

    fn after_success(&mut self, accumulated: Option<String>) -> (a: DispatchAction)
        ensures
            (final(self)@, a@) == after_success(old(self)@, opt_view(accumulated)),
    {
        let a = final_comment_action(&self.comment_id, accumulated, &self.response);
        if matches!(a, DispatchAction::MarkComplete) {
            self.phase = Phase::Completing;
        } else {
            self.phase = Phase::Commenting;
        }
        a
    }

    /// Takes the event that answers the last action and gives the next action.
    #[verifier::spinoff_prover]
    pub fn step(&mut self, e: DispatchEvent) -> (a: DispatchAction)
        requires
            accepts(old(self).phase, e@),
            dispatch_inv(old(self)@),
        ensures
            final(self)@ == next(old(self)@, e@).0,
            a@ == next(old(self)@, e@).1,
            dispatch_inv(final(self)@),
    {
        let ghost s0 = self@;
        let ghost e0 = e@;
        match self.phase {
            Phase::Start => {
                if self.in_repo {
                    self.phase = Phase::Resetting;
                    self.worktree_path = self.repo_path.clone();
                    assert(self@ == next(s0, e0).0);
                    DispatchAction::ResetRepository
                } else {
                    self.phase = Phase::ResolvingWorktree;
                    assert(self@ == next(s0, e0).0);
                    DispatchAction::ResolveWorktree { index: self.worktree }
                }
            },
            Phase::ResolvingWorktree => match e {
                DispatchEvent::WorktreeResolved(Some(p)) => {
                    self.phase = Phase::Resetting;
                    self.worktree_path = p;
                    assert(self@ == next(s0, e0).0);
                    DispatchAction::ResetWorktree { index: self.worktree }
                },
                _ => {
                    self.phase = Phase::Releasing;
                    assert(self@ == next(s0, e0).0);
                    DispatchAction::Release { interrupted: false }
                },
            },
            Phase::Resetting => match e {
                DispatchEvent::Reset(true) => {
                    self.phase = Phase::MarkingInProgress;
                    assert(self@ == next(s0, e0).0);
                    DispatchAction::MarkInProgress
                },
                _ => {
                    self.phase = Phase::Releasing;
                    assert(self@ == next(s0, e0).0);
                    DispatchAction::Release { interrupted: false }
                },
            },
            Phase::MarkingInProgress => {
                proof {
                    reveal_strlit("antigravity");
                    reveal_strlit("cursor-agent");
                    reveal_strlit("gemini");
                }
                match resolve_executor(self.executor.as_str()) {
                    Ok(k) => {
                        self.phase = Phase::OpeningComment;
                        self.kind = Some(k);
                        proof {
                            lemma_kind_named(k);
                        }
                        assert(self@ == next(s0, e0).0);
                        DispatchAction::OpenStreamingComment
                    },
                    Err(_) => {
                        self.phase = Phase::Reopening;
                        assert(self@ == next(s0, e0).0);
                        DispatchAction::Reopen
                    },
                }
            },
            Phase::OpeningComment => match e {
                DispatchEvent::StreamingComment(c) => {
                    let stream = c.is_some();
                    self.phase = Phase::Executing;
                    self.comment_id = c;
                    let kind = match self.kind {
                        Some(k) => k,
                        None => ExecutorKind::Antigravity,
                    };
                    assert(self@ == next(s0, e0).0);
                    DispatchAction::Execute {
                        kind,
                        worktree_path: self.worktree_path.clone(),
                        stream,
                    }
                },
                _ => DispatchAction::Finished,
            },
            Phase::Executing => match e {
                DispatchEvent::Executed(ExecutionOutcome::Succeeded(r)) => {
                    self.response = r;
                    self.succeeded = true;
                    if self.comment_id.is_some() {
                        self.phase = Phase::Collecting;
                        assert(self@ == next(s0, e0).0);
                        DispatchAction::CollectStreamedOutput
                    } else {
                        self.after_success(None)
                    }
                },
                DispatchEvent::Executed(ExecutionOutcome::Interrupted) => {
                    self.phase = Phase::Reopening;
                    self.interrupted = true;
                    assert(self@ == next(s0, e0).0);
                    DispatchAction::Reopen
                },
                _ => {
                    self.phase = Phase::Reopening;
                    assert(self@ == next(s0, e0).0);
                    DispatchAction::Reopen
                },
            },
            Phase::Collecting => match e {
                DispatchEvent::Streamed(acc) => self.after_success(acc),
                _ => DispatchAction::Finished,
            },
            Phase::Commenting => {
                self.phase = Phase::Completing;
                assert(self@ == next(s0, e0).0);
                DispatchAction::MarkComplete
            },
            Phase::Completing => {
                self.phase = Phase::Releasing;
                assert(self@ == next(s0, e0).0);
                DispatchAction::Release { interrupted: false }
            },
            Phase::Reopening => {
                self.phase = Phase::Releasing;
                assert(self@ == next(s0, e0).0);
                DispatchAction::Release { interrupted: self.interrupted }
            },
            Phase::Releasing => {
                self.phase = Phase::Finished;
                assert(self@ == next(s0, e0).0);
                DispatchAction::Finished
            },
            Phase::Finished => DispatchAction::Finished,
        }
    }
}

} // verus!

verus! {

/// How many steps a phase is at most away from the end.
pub open spec fn rank(p: Phase) -> nat {
    match p {
        Phase::Start => 11,
        Phase::ResolvingWorktree => 10,
        Phase::Resetting => 9,
        Phase::MarkingInProgress => 8,
        Phase::OpeningComment => 7,
        Phase::Executing => 6,
        Phase::Collecting => 5,
        Phase::Commenting => 4,
        Phase::Completing => 3,
        Phase::Reopening => 2,
        Phase::Releasing => 1,
        Phase::Finished => 0,
    }
}

/// Law: every step of an unfinished dispatch brings it closer to the end, so a dispatch
/// ends after at most eleven steps whatever the outcomes, and it keeps its invariant.
pub proof fn law_dispatch_progresses(s: DispatchState, e: EventView)
    requires
        dispatch_inv(s),
        accepts(s.phase, e),
        !(s.phase is Finished),
    ensures
        rank(next(s, e).0.phase) < rank(s.phase),
        rank(s.phase) <= 11,
{
}

/// Law: a dispatch ends only through the release of its task, and the release is asked
/// for exactly when the dispatch enters the releasing phase.
pub proof fn law_dispatch_ends_with_release(s: DispatchState, e: EventView)
    requires
        dispatch_inv(s),
        accepts(s.phase, e),
        !(s.phase is Finished),
    ensures
        next(s, e).0.phase is Finished ==> s.phase is Releasing,
        next(s, e).1 is Release <==> next(s, e).0.phase is Releasing,
{
}

/// Law: a task is marked complete only after its executor succeeded, and moved back
/// to open only when it did not (unknown executor, failure or shutdown).
pub proof fn law_complete_only_on_success(s: DispatchState, e: EventView)
    requires
        dispatch_inv(s),
        accepts(s.phase, e),
    ensures
        dispatch_inv(next(s, e).0),
        next(s, e).1 is MarkComplete ==> next(s, e).0.succeeded && !next(s, e).0.interrupted,
        next(s, e).1 is Reopen ==> !next(s, e).0.succeeded,
        next(s, e).1 is UpdateComment ==> next(s, e).0.succeeded,
        next(s, e).1 is AddComment ==> next(s, e).0.succeeded,
{
}

/// Law: a shutdown during execution moves the task back to open and then releases it
/// as interrupted.
pub proof fn law_shutdown_reopens(s: DispatchState)
    requires
        dispatch_inv(s),
        s.phase is Executing,
    ensures
        ({
            let (s1, a1) = next(s, EventView::Executed(OutcomeView::Interrupted));
            let (s2, a2) = next(s1, EventView::Done);
            &&& a1 is Reopen
            &&& a2 == ActionView::Release { interrupted: true }
            &&& s2.phase is Releasing
        }),
{
}

} // verus!

verus! {

/// Law: a task's executor runs only after the worktree (or the repository) was reset and
/// the task marked in progress: entering the reset asks for a reset, only a successful
/// reset leads on to marking the task in progress, a failed one releases the task
/// untouched, and the steps that lead to running the executor follow one another in this
/// order.
pub proof fn law_reset_before_execute(s: DispatchState, e: EventView)
    requires
        dispatch_inv(s),
        accepts(s.phase, e),
        !(s.phase is Finished),
    ensures
        next(s, e).0.phase is Resetting ==> (next(s, e).1 is ResetWorktree || next(s, e).1 is ResetRepository),
        next(s, e).0.phase is MarkingInProgress ==> (s.phase is Resetting && e == EventView::Reset(true)),
        (s.phase is Resetting && e == EventView::Reset(false)) ==> (next(s, e).0.phase is Releasing
            && next(s, e).1 == (ActionView::Release { interrupted: false })),
        next(s, e).0.phase is OpeningComment ==> s.phase is MarkingInProgress,
        next(s, e).1 is Execute ==> s.phase is OpeningComment,
{
}


/// Whether each event of `es`, in turn, answers the action of the state the dispatch has
/// reached.
pub open spec fn accepted_run(s: DispatchState, es: Seq<EventView>) -> bool
    decreases es.len(),
{
    es.len() == 0 || (accepts(s.phase, es[0]) && accepted_run(next(s, es[0]).0, es.drop_first()))
}

/// The state a dispatch reaches from `s` through the events `es`.
pub open spec fn run_state(s: DispatchState, es: Seq<EventView>) -> DispatchState
    decreases es.len(),
{
    if es.len() == 0 {
        s
    } else {
        run_state(next(s, es[0]).0, es.drop_first())
    }
}

/// How many releases a dispatch asks for on its way from `s` through the events `es`.
pub open spec fn releases_in_run(s: DispatchState, es: Seq<EventView>) -> nat
    decreases es.len(),
{
    if es.len() == 0 {
        0
    } else {
        (if next(s, es[0]).1 is Release {
            1nat
        } else {
            0nat
        }) + releases_in_run(next(s, es[0]).0, es.drop_first())
    }
}

/// Whether the dispatch has already asked for its release.
pub open spec fn released(p: Phase) -> bool {
    p is Releasing || p is Finished
}

proof fn lemma_releases_in_run(s: DispatchState, es: Seq<EventView>)
    requires
        dispatch_inv(s),
        accepted_run(s, es),
    ensures
        releases_in_run(s, es) + (if released(s.phase) {
            1nat
        } else {
            0nat
        }) == (if released(run_state(s, es).phase) {
            1nat
        } else {
            0nat
        }),
    decreases es.len(),
{
    if es.len() > 0 {
        if !(s.phase is Finished) {
            law_dispatch_ends_with_release(s, es[0]);
        }
        law_complete_only_on_success(s, es[0]);
        lemma_releases_in_run(next(s, es[0]).0, es.drop_first());
    }
}

/// Law: a dispatch asks for the release of its task exactly once on its way from the
/// start to the end, and never more than once on the way, whatever the events.
pub proof fn law_released_exactly_once(s: DispatchState, es: Seq<EventView>)
    requires
        dispatch_inv(s),
        s.phase is Start,
        accepted_run(s, es),
    ensures
        releases_in_run(s, es) <= 1,
        run_state(s, es).phase is Finished ==> releases_in_run(s, es) == 1,
{
    lemma_releases_in_run(s, es);
}


/// Law: after a successful run without a streaming comment, a non-blank response is
/// posted on the task as a comment and only then is the task marked complete; with no
/// (or a blank) response the task is marked complete at once.
pub proof fn law_response_posted(s: DispatchState, r: Option<Seq<char>>)
    requires
        dispatch_inv(s),
        s.phase is Executing,
        s.comment_id is None,
    ensures
        ({
            let (s1, a1) = next(s, EventView::Executed(OutcomeView::Succeeded(r)));
            &&& (r matches Some(t) && !is_blank(t)) ==> (a1 == (ActionView::AddComment {
                body: r->0,
            }) && next(s1, EventView::Done).1 == ActionView::MarkComplete
                && next(next(s1, EventView::Done).0, EventView::Done).1 == (ActionView::Release {
                interrupted: false,
            }))
            &&& !(r matches Some(t) && !is_blank(t)) ==> (a1 == ActionView::MarkComplete
                && next(s1, EventView::Done).1 == (ActionView::Release { interrupted: false }))
        }),
{
}

/// Law: after a successful run with a streaming comment, the streamed output is collected
/// and written into that comment, followed by the response under a `Result:` heading when
/// the response is not blank, and then the task is marked complete; when no output came
/// back, a non-blank response is posted as a comment of its own.
pub proof fn law_streamed_output_posted(
    s: DispatchState,
    r: Option<Seq<char>>,
    acc: Option<Seq<char>>,
)
    requires
        dispatch_inv(s),
        s.phase is Executing,
        s.comment_id is Some,
    ensures
        ({
            let (s1, a1) = next(s, EventView::Executed(OutcomeView::Succeeded(r)));
            let (s2, a2) = next(s1, EventView::Streamed(acc));
            let posted = r matches Some(t) && !is_blank(t);
            &&& a1 == ActionView::CollectStreamedOutput
            &&& (acc is Some && posted) ==> a2 == (ActionView::UpdateComment {
                comment_id: s.comment_id->0,
                body: acc->0 + "\n\n---\nResult:\n"@ + r->0,
            })
            &&& (acc is Some && !posted) ==> a2 == (ActionView::UpdateComment {
                comment_id: s.comment_id->0,
                body: acc->0,
            })
            &&& (acc is None && posted) ==> a2 == (ActionView::AddComment { body: r->0 })
            &&& (acc is None && !posted) ==> a2 == ActionView::MarkComplete
            &&& !(acc is None && !posted) ==> next(s2, EventView::Done).1
                == ActionView::MarkComplete
        }),
{
}

} // verus!
