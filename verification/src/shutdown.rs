//! Two-phase shutdown: the first signal stops new work and lets tasks finish, the second
//! stops everything.
use vstd::prelude::*;

verus! {

/// Normal operation.
pub const PHASE_RUNNING: u8 = 0;

/// Stop scheduling new work; let in-flight tasks finish.
pub const PHASE_GRACEFUL: u8 = 1;

/// Force-terminate workers and exit.
pub const PHASE_IMMEDIATE: u8 = 2;

/// Whom advancing to a phase wakes.
#[derive(Clone, Copy, Debug, PartialEq, Eq)]
pub enum Wake {
    Graceful,
    Immediate,
    Nobody,
}

/// The shutdown phase, which only ever moves forward.
#[derive(Debug)]
pub struct ShutdownPhase {
    pub phase: u8,
}

/// The phase after one more shutdown request.
pub open spec fn advanced(p: u8) -> u8 {
    if p >= PHASE_IMMEDIATE {
        PHASE_IMMEDIATE
    } else {
        (p + 1) as u8
    }
}

/// The phase after `n` shutdown requests from `p`.
pub open spec fn advanced_n(p: u8, n: nat) -> u8
    decreases n,
{
    if n == 0 {
        p
    } else {
        advanced_n(advanced(p), (n - 1) as nat)
    }
}

/// The phase reached by a counter that was `prev` before an increment, capped at immediate.
pub fn settle(prev: u8) -> (p: u8)
    requires
        prev < u8::MAX,
    ensures
        p == if prev + 1 > PHASE_IMMEDIATE {
            PHASE_IMMEDIATE
        } else {
            (prev + 1) as u8
        },
{
    let n = prev + 1;
    if n > PHASE_IMMEDIATE {
        PHASE_IMMEDIATE
    } else {
        n
    }
}

/// Whom advancing to `phase` wakes: the graceful waiters on entering the graceful phase,
/// the immediate waiters on entering the immediate one.
pub fn wake_for(phase: u8) -> (w: Wake)
    ensures
        phase == PHASE_GRACEFUL ==> w == Wake::Graceful,
        phase == PHASE_IMMEDIATE ==> w == Wake::Immediate,
        phase != PHASE_GRACEFUL && phase != PHASE_IMMEDIATE ==> w == Wake::Nobody,
{
    if phase == PHASE_GRACEFUL {
        Wake::Graceful
    } else if phase == PHASE_IMMEDIATE {
        Wake::Immediate
    } else {
        Wake::Nobody
    }
}

impl ShutdownPhase {
    /// Normal operation.
    pub fn new() -> (s: Self)
        ensures
            s.phase == PHASE_RUNNING,
    {
        ShutdownPhase { phase: PHASE_RUNNING }
    }

    /// Whether graceful (or immediate) shutdown was requested.
    pub fn is_graceful(&self) -> (b: bool)
        ensures
            b == (self.phase >= PHASE_GRACEFUL),
    {
        self.phase >= PHASE_GRACEFUL
    }

    /// Whether immediate shutdown was requested.
    pub fn is_immediate(&self) -> (b: bool)
        ensures
            b == (self.phase >= PHASE_IMMEDIATE),
    {
        self.phase >= PHASE_IMMEDIATE
    }

    /// Advances to the next phase (staying at immediate) and tells whom to wake.
    pub fn advance(&mut self) -> (r: (u8, Wake))
        ensures
            final(self).phase == advanced(old(self).phase),
            r.0 == final(self).phase,
            r.0 == PHASE_GRACEFUL ==> r.1 == Wake::Graceful,
            r.0 == PHASE_IMMEDIATE ==> r.1 == Wake::Immediate,
            r.0 != PHASE_GRACEFUL && r.0 != PHASE_IMMEDIATE ==> r.1 == Wake::Nobody,
    {
        let p = if self.phase >= PHASE_IMMEDIATE {
            PHASE_IMMEDIATE
        } else {
            settle(self.phase)
        };
        self.phase = p;
        (p, wake_for(p))
    }
}

/// What a part of the daemon is doing when a shutdown request reaches it.
#[derive(Clone, Copy, Debug, PartialEq, Eq)]
pub enum Activity {
    /// Polling for new work (the daemon's loop and each repository's worker loop).
    Polling,
    /// Running a dispatched task.
    RunningTask,
}

/// What that part does about the shutdown phase.
#[derive(Clone, Copy, Debug, PartialEq, Eq)]
pub enum ShutdownStep {
    /// Go on as before.
    Continue,
    /// Stop taking new work, and wait for the tasks already running.
    StopPolling,
    /// Cut the running task short.
    Interrupt,
}

/// The shutdown policy: a graceful shutdown stops polling and lets running tasks finish;
/// an immediate one also cuts running tasks short.
pub open spec fn shutdown_step_spec(phase: u8, activity: Activity) -> ShutdownStep {
    match activity {
        Activity::Polling => if phase >= PHASE_GRACEFUL {
            ShutdownStep::StopPolling
        } else {
            ShutdownStep::Continue
        },
        Activity::RunningTask => if phase >= PHASE_IMMEDIATE {
            ShutdownStep::Interrupt
        } else {
            ShutdownStep::Continue
        },
    }
}

/// What `activity` does in shutdown phase `phase` (see `shutdown_step_spec`).
pub fn shutdown_step(phase: u8, activity: Activity) -> (s: ShutdownStep)
    ensures
        s == shutdown_step_spec(phase, activity),
{
    match activity {
        Activity::Polling => if phase >= PHASE_GRACEFUL {
            ShutdownStep::StopPolling
        } else {
            ShutdownStep::Continue
        },
        Activity::RunningTask => if phase >= PHASE_IMMEDIATE {
            ShutdownStep::Interrupt
        } else {
            ShutdownStep::Continue
        },
    }
}

/// Law: the first shutdown request stops polling but lets running tasks finish; the
/// second cuts them short; before any request nothing changes.
pub proof fn law_graceful_then_immediate()
    ensures
        shutdown_step_spec(advanced_n(PHASE_RUNNING, 0), Activity::Polling) == ShutdownStep::Continue,
        shutdown_step_spec(advanced_n(PHASE_RUNNING, 0), Activity::RunningTask)
            == ShutdownStep::Continue,
        shutdown_step_spec(advanced_n(PHASE_RUNNING, 1), Activity::Polling)
            == ShutdownStep::StopPolling,
        shutdown_step_spec(advanced_n(PHASE_RUNNING, 1), Activity::RunningTask)
            == ShutdownStep::Continue,
        shutdown_step_spec(advanced_n(PHASE_RUNNING, 2), Activity::Polling)
            == ShutdownStep::StopPolling,
        shutdown_step_spec(advanced_n(PHASE_RUNNING, 2), Activity::RunningTask)
            == ShutdownStep::Interrupt,
{
    reveal_with_fuel(advanced_n, 3);
}

/// Law: the first request makes shutdown graceful, the second immediate, and later
/// requests keep it immediate.
pub proof fn law_two_phase_shutdown(n: nat)
    ensures
        advanced_n(PHASE_RUNNING, 1) == PHASE_GRACEFUL,
        advanced_n(PHASE_RUNNING, 2) == PHASE_IMMEDIATE,
        n >= 2 ==> advanced_n(PHASE_RUNNING, n) == PHASE_IMMEDIATE,
    decreases n,
{
    reveal_with_fuel(advanced_n, 3);
    if n >= 2 {
        lemma_immediate_stays(PHASE_IMMEDIATE, (n - 2) as nat);
        assert(advanced_n(PHASE_RUNNING, n) == advanced_n(PHASE_GRACEFUL, (n - 1) as nat));
        assert(advanced_n(PHASE_GRACEFUL, (n - 1) as nat) == advanced_n(
            PHASE_IMMEDIATE,
            (n - 2) as nat,
        ));
    }
}

proof fn lemma_immediate_stays(p: u8, n: nat)
    requires
        p == PHASE_IMMEDIATE,
    ensures
        advanced_n(p, n) == PHASE_IMMEDIATE,
    decreases n,
{
    if n > 0 {
        lemma_immediate_stays(advanced(p), (n - 1) as nat);
    }
}

/// Law: phases only move forward, and an immediate shutdown is also a graceful one.
pub proof fn law_phase_monotone(p: u8)
    ensures
        advanced(p) >= p || p > PHASE_IMMEDIATE,
        advanced(p) >= PHASE_IMMEDIATE ==> advanced(p) >= PHASE_GRACEFUL,
        advanced(p) <= PHASE_IMMEDIATE,
{
}

} // verus!
