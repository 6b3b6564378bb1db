//! Dispatch bookkeeping of one repository's worker: which ready tasks are handed
//! to which worktree, and which worktrees are free.
use vstd::prelude::*;
use crate::text::views;

verus! {

/// A task that is being executed, with the worktree it was given.
#[derive(Debug)]
pub struct Slot {
    pub task_id: String,
    pub worktree: usize,
}

/// A ready task (by its position in the polled list) handed to a worktree.
#[derive(Clone, Copy, Debug, PartialEq, Eq)]
pub struct Assignment {
    pub task: usize,
    pub worktree: usize,
}

/// The in-flight tasks and the free worktrees of one repository.
#[derive(Debug)]
pub struct Scheduler {
    pub max_workers: usize,
    /// Free worktree indices; the last one is handed out first.
    pub available: Vec<usize>,
    /// Tasks in flight, each with the worktree it holds.
    pub running: Vec<Slot>,
}

/// The running slots as (task id, worktree) pairs.
pub open spec fn slots_view(s: Seq<Slot>) -> Seq<(Seq<char>, usize)> {
    s.map_values(|x: Slot| (x.task_id@, x.worktree))
}

/// The ids of the running slots.
pub open spec fn ids_of(r: Seq<(Seq<char>, usize)>) -> Seq<Seq<char>> {
    r.map_values(|p: (Seq<char>, usize)| p.0)
}

/// The worktrees of the running slots.
pub open spec fn worktrees_of(r: Seq<(Seq<char>, usize)>) -> Seq<usize> {
    r.map_values(|p: (Seq<char>, usize)| p.1)
}

/// The assignments as (task position, worktree) pairs.
pub open spec fn picks_view(s: Seq<Assignment>) -> Seq<(int, usize)> {
    s.map_values(|a: Assignment| (a.task as int, a.worktree))
}

/// The state that scheduling works on: running slots, free worktrees, picks so far.
pub struct SchedState {
    pub running: Seq<(Seq<char>, usize)>,
    pub available: Seq<usize>,
    pub picks: Seq<(int, usize)>,
}

/// One pass over the polled ready tasks `ids`, from position `i` on: a task already
/// in flight is skipped; otherwise it takes the last free worktree, and the pass stops
/// when none is free. In a dry run the worktree is put back and nothing is recorded
/// as in flight.
pub open spec fn schedule_from(ids: Seq<Seq<char>>, i: int, dry_run: bool, st: SchedState) -> SchedState
    decreases ids.len() - i,
{
    if i < 0 || i >= ids.len() {
        st
    } else if ids_of(st.running).contains(ids[i]) {
        schedule_from(ids, i + 1, dry_run, st)
    } else if st.available.len() == 0 {
        st
    } else if dry_run {
        schedule_from(
            ids,
            i + 1,
            dry_run,
            SchedState { picks: st.picks.push((i, st.available.last())), ..st },
        )
    } else {
        schedule_from(
            ids,
            i + 1,
            dry_run,
            SchedState {
                running: st.running.push((ids[i], st.available.last())),
                available: st.available.drop_last(),
                picks: st.picks.push((i, st.available.last())),
            },
        )
    }
}

/// The whole pass over `ids` from a scheduler state with no picks yet.
pub open spec fn schedule(
    ids: Seq<Seq<char>>,
    dry_run: bool,
    running: Seq<(Seq<char>, usize)>,
    available: Seq<usize>,
) -> SchedState {
    schedule_from(ids, 0, dry_run, SchedState { running, available, picks: seq![] })
}

/// Free and busy worktrees partition `0..max`, and no task runs twice.
pub open spec fn partition_ok(
    max: nat,
    running: Seq<(Seq<char>, usize)>,
    available: Seq<usize>,
) -> bool {
    &&& available.no_duplicates()
    &&& worktrees_of(running).no_duplicates()
    &&& ids_of(running).no_duplicates()
    &&& forall|w: usize| #[trigger] available.contains(w) ==> w < max
    &&& forall|w: usize| #[trigger] worktrees_of(running).contains(w) ==> w < max
    &&& forall|w: usize|
        w < max ==> (#[trigger] available.contains(w) <==> !worktrees_of(running).contains(w))
}

impl Scheduler {
    pub open spec fn running_view(&self) -> Seq<(Seq<char>, usize)> {
        slots_view(self.running@)
    }

    /// Well-formedness: the free and the busy worktrees partition `0..max_workers`.
    pub open spec fn wf(&self) -> bool {
        partition_ok(self.max_workers as nat, self.running_view(), self.available@)
    }

    /// A scheduler for `max_workers` worktrees, all free, the lowest index last.
    pub fn new(max_workers: usize) -> (s: Self)
        ensures
            s.wf(),
            s.max_workers == max_workers,
            s.running@.len() == 0,
            s.available@ == Seq::new(max_workers as nat, |i: int| i as usize),
    {
        let mut available: Vec<usize> = Vec::new();
        let mut i: usize = 0;
        while i < max_workers
            invariant
                i <= max_workers,
                available@ == Seq::new(i as nat, |j: int| j as usize),
            decreases max_workers - i,
        {
            available.push(i);
            assert(available@ =~= Seq::new((i + 1) as nat, |j: int| j as usize));
            i = i + 1;
        }
        let s = Scheduler { max_workers, available, running: Vec::new() };
        assert(s.running_view() =~= seq![]);
        assert forall|w: usize| w < max_workers implies #[trigger] s.available@.contains(w) by {
            assert(s.available@[w as int] == w);
        }
        s
    }

    /// Whether a task with this id is in flight.
    pub fn is_in_flight(&self, task_id: &String) -> (b: bool)
        ensures
            b == ids_of(self.running_view()).contains(task_id@),
    {
        let n = self.running.len();
        let mut j: usize = 0;
        while j < n
            invariant
                n == self.running@.len(),
                j <= n,
                forall|k: int| 0 <= k < j ==> ids_of(self.running_view())[k] != task_id@,
            decreases n - j,
        {
            if self.running[j].task_id == *task_id {
                assert(ids_of(self.running_view())[j as int] == task_id@);
                return true;
            }
            j = j + 1;
        }
        false
    }

    /// Hands the polled ready tasks (`task_ids`, in the order polled) to free worktrees:
    /// a task in flight is skipped, each other task takes the last free worktree, and
    /// the pass stops when no worktree is free. A dry run only reports what it would
    /// hand out and changes nothing.
    pub fn process_ready(&mut self, task_ids: &Vec<String>, dry_run: bool) -> (picks: Vec<Assignment>)
        requires
            old(self).wf(),
        ensures
            final(self).wf(),
            final(self).max_workers == old(self).max_workers,
            ({
                let r = schedule(
                    views(task_ids@),
                    dry_run,
                    old(self).running_view(),
                    old(self).available@,
                );
                &&& final(self).running_view() == r.running
                &&& final(self).available@ == r.available
                &&& picks_view(picks@) == r.picks
            }),
    {
        let ghost ids = views(task_ids@);
        let ghost init = SchedState {
            running: self.running_view(),
            available: self.available@,
            picks: seq![],
        };
        let mut picks: Vec<Assignment> = Vec::new();
        let n = task_ids.len();
        let mut i: usize = 0;
        assert(picks_view(picks@) =~= seq![]);
        while i < n
            invariant
                n == task_ids@.len(),
                ids == views(task_ids@),
                i <= n,
                self.wf(),
                self.max_workers == old(self).max_workers,
                init == (SchedState {
                    running: old(self).running_view(),
                    available: old(self).available@,
                    picks: seq![],
                }),
                schedule_from(ids, 0, dry_run, init) == schedule_from(
                    ids,
                    i as int,
                    dry_run,
                    SchedState {
                        running: self.running_view(),
                        available: self.available@,
                        picks: picks_view(picks@),
                    },
                ),
            decreases n - i,
        {
            let ghost cur = SchedState {
                running: self.running_view(),
                available: self.available@,
                picks: picks_view(picks@),
            };
            let id = &task_ids[i];
            assert(ids[i as int] == id@);
            if self.is_in_flight(id) {
                i = i + 1;
                continue;
            }
            if self.available.len() == 0 {
                return picks;
            }
            let w = self.available[self.available.len() - 1];
            if dry_run {
                picks.push(Assignment { task: i, worktree: w });
                assert(picks_view(picks@) =~= cur.picks.push((i as int, w)));
            } else {
                let ghost old_avail = self.available@;
                let ghost old_run = self.running_view();
                self.available.pop();
                self.running.push(Slot { task_id: id.clone(), worktree: w });
                picks.push(Assignment { task: i, worktree: w });
                assert(picks_view(picks@) =~= cur.picks.push((i as int, w)));
                assert(self.available@ =~= old_avail.drop_last());
                assert(self.running_view() =~= old_run.push((id@, w)));
                proof {
                    lemma_take_worktree(
                        self.max_workers as nat,
                        old_run,
                        old_avail,
                        id@,
                    );
                }
            }
            i = i + 1;
        }
        picks
    }

    /// Ends the task with this id: its slot is dropped and its worktree is free again.
    /// Nothing changes when no such task is in flight.
    pub fn finish(&mut self, task_id: &String)
        requires
            old(self).wf(),
        ensures
            final(self).wf(),
            final(self).max_workers == old(self).max_workers,
            ({
                let r = finish_view(old(self).running_view(), old(self).available@, task_id@);
                final(self).running_view() == r.0 && final(self).available@ == r.1
            }),
    {
        let n = self.running.len();
        let mut j: usize = 0;
        while j < n
            invariant
                n == self.running@.len(),
                j <= n,
                forall|k: int| 0 <= k < j ==> ids_of(self.running_view())[k] != task_id@,
                self.wf(),
                self.max_workers == old(self).max_workers,
                self.running@ == old(self).running@,
                self.available@ == old(self).available@,
            decreases n - j,
        {
            if self.running[j].task_id == *task_id {
                let ghost old_run = self.running_view();
                let ghost old_avail = self.available@;
                assert(ids_of(old_run)[j as int] == task_id@);
                proof {
                    lemma_unique_index(ids_of(old_run), task_id@, j as int);
                }
                let slot = self.running.remove(j);
                self.available.push(slot.worktree);
                assert(self.running_view() =~= old_run.remove(j as int));
                proof {
                    lemma_release_worktree(self.max_workers as nat, old_run, old_avail, j as int);
                }
                return;
            }
            j = j + 1;
        }
        assert(!ids_of(self.running_view()).contains(task_id@));
    }
}

/// What finishing the task `id` does to the running slots and the free worktrees.
pub open spec fn finish_view(
    running: Seq<(Seq<char>, usize)>,
    available: Seq<usize>,
    id: Seq<char>,
) -> (Seq<(Seq<char>, usize)>, Seq<usize>) {
    if ids_of(running).contains(id) {
        let j = ids_of(running).index_of(id);
        (running.remove(j), available.push(running[j].1))
    } else {
        (running, available)
    }
}

proof fn lemma_unique_index(s: Seq<Seq<char>>, x: Seq<char>, j: int)
    requires
        0 <= j < s.len(),
        s[j] == x,
        s.no_duplicates(),
    ensures
        s.contains(x),
        s.index_of(x) == j,
{
    assert(s.contains(x));
    let k = s.index_of(x);
    assert(s[k] == x);
}

/// Moving the last free worktree to a new slot keeps the partition.
proof fn lemma_take_worktree(
    max: nat,
    running: Seq<(Seq<char>, usize)>,
    available: Seq<usize>,
    id: Seq<char>,
)
    requires
        partition_ok(max, running, available),
        available.len() > 0,
        !ids_of(running).contains(id),
    ensures
        partition_ok(max, running.push((id, available.last())), available.drop_last()),
{
    let w = available.last();
    let r2 = running.push((id, w));
    let a2 = available.drop_last();
    assert(worktrees_of(r2) =~= worktrees_of(running).push(w));
    assert(ids_of(r2) =~= ids_of(running).push(id));
    assert(available.contains(w));
    assert(!worktrees_of(running).contains(w));
    assert forall|v: usize| #[trigger] a2.contains(v) implies v != w && available.contains(v) by {
        let k = choose|k: int| 0 <= k < a2.len() && a2[k] == v;
        assert(available[k] == v);
        assert(available[available.len() - 1] == w);
    }
    assert forall|v: usize| v < max implies (#[trigger] a2.contains(v) <==> !worktrees_of(
        r2,
    ).contains(v)) by {
        if v == w {
            assert(worktrees_of(r2)[worktrees_of(r2).len() - 1] == w);
            assert(worktrees_of(r2).contains(w));
        } else {
            if available.contains(v) {
                let k = choose|k: int| 0 <= k < available.len() && available[k] == v;
                assert(k != available.len() - 1);
                assert(a2[k] == v);
                assert(a2.contains(v));
            }
            if worktrees_of(running).contains(v) {
                let k = choose|k: int|
                    0 <= k < worktrees_of(running).len() && worktrees_of(running)[k] == v;
                assert(worktrees_of(r2)[k] == v);
                assert(worktrees_of(r2).contains(v));
            }
            if worktrees_of(r2).contains(v) {
                let k = choose|k: int| 0 <= k < worktrees_of(r2).len() && worktrees_of(r2)[k] == v;
                assert(k != worktrees_of(r2).len() - 1);
                assert(worktrees_of(running)[k] == v);
                assert(worktrees_of(running).contains(v));
            }
            assert(available.contains(v) <==> !worktrees_of(running).contains(v));
        }
    }
    assert forall|v: usize| #[trigger] worktrees_of(r2).contains(v) implies v < max by {
        let k = choose|k: int| 0 <= k < worktrees_of(r2).len() && worktrees_of(r2)[k] == v;
        if k < worktrees_of(running).len() {
            assert(worktrees_of(running)[k] == v);
            assert(worktrees_of(running).contains(v));
        } else {
            assert(v == w);
        }
    }
}

/// Giving the worktree of slot `j` back keeps the partition.
proof fn lemma_release_worktree(
    max: nat,
    running: Seq<(Seq<char>, usize)>,
    available: Seq<usize>,
    j: int,
)
    requires
        partition_ok(max, running, available),
        0 <= j < running.len(),
    ensures
        partition_ok(max, running.remove(j), available.push(running[j].1)),
{
    let w = running[j].1;
    let r2 = running.remove(j);
    let a2 = available.push(w);
    assert(worktrees_of(running)[j] == w);
    assert(worktrees_of(running).contains(w));
    assert(!available.contains(w));
    assert(worktrees_of(r2) =~= worktrees_of(running).remove(j));
    assert(ids_of(r2) =~= ids_of(running).remove(j));
    assert forall|v: usize| #[trigger] worktrees_of(r2).contains(v) implies v != w
        && worktrees_of(running).contains(v) by {
        let k = choose|k: int| 0 <= k < worktrees_of(r2).len() && worktrees_of(r2)[k] == v;
        if k < j {
            assert(worktrees_of(running)[k] == v);
        } else {
            assert(worktrees_of(running)[k + 1] == v);
        }
    }
    assert forall|v: usize| v < max implies (#[trigger] a2.contains(v) <==> !worktrees_of(
        r2,
    ).contains(v)) by {
        if v == w {
            assert(a2[a2.len() - 1] == w);
        } else {
            if a2.contains(v) {
                let k = choose|k: int| 0 <= k < a2.len() && a2[k] == v;
                assert(available[k] == v);
            }
            if available.contains(v) {
                let k = choose|k: int| 0 <= k < available.len() && available[k] == v;
                assert(a2[k] == v);
            }
            if worktrees_of(running).contains(v) {
                let k = choose|k: int|
                    0 <= k < worktrees_of(running).len() && worktrees_of(running)[k] == v;
                assert(k != j);
                if k < j {
                    assert(worktrees_of(r2)[k] == v);
                } else {
                    assert(worktrees_of(r2)[k - 1] == v);
                }
            }
        }
    }
    assert forall|v: usize| #[trigger] a2.contains(v) implies v < max by {
        let k = choose|k: int| 0 <= k < a2.len() && a2[k] == v;
        if k < available.len() {
            assert(available[k] == v);
            assert(available.contains(v));
        } else {
            assert(v == w);
        }
    }
    assert(a2.no_duplicates()) by {
        assert forall|x: int, y: int| 0 <= x < a2.len() && 0 <= y < a2.len() && x != y implies a2[x]
            != a2[y] by {
            if x == a2.len() - 1 {
                assert(available.contains(a2[y]));
            } else if y == a2.len() - 1 {
                assert(available.contains(a2[x]));
            }
        }
    }
}

} // verus!

verus! {

/// What a pass from position `i` keeps and what each new pick satisfies.
proof fn lemma_schedule_from(ids: Seq<Seq<char>>, i: int, dry_run: bool, st: SchedState)
    requires
        0 <= i <= ids.len(),
    ensures
        ({
            let res = schedule_from(ids, i, dry_run, st);
            &&& st.picks.len() <= res.picks.len()
            &&& res.picks.take(st.picks.len() as int) == st.picks
            &&& forall|x: Seq<char>| #[trigger] ids_of(st.running).contains(x) ==> ids_of(
                res.running,
            ).contains(x)
            &&& forall|k: int|
                st.picks.len() <= k < res.picks.len() ==> {
                    let p = #[trigger] res.picks[k];
                    &&& i <= p.0 < ids.len()
                    &&& !ids_of(st.running).contains(ids[p.0])
                    &&& st.available.contains(p.1)
                    &&& !dry_run ==> ids_of(res.running).contains(ids[p.0])
                }
            &&& dry_run ==> res.running == st.running && res.available == st.available
            &&& (!dry_run && res.available.len() > 0) ==> forall|j: int|
                i <= j < ids.len() ==> #[trigger] ids_of(res.running).contains(ids[j])
            &&& !dry_run ==> res.picks.len() - st.picks.len() == st.available.len()
                - res.available.len()
        }),
    decreases ids.len() - i,
{
    let res = schedule_from(ids, i, dry_run, st);
    if i >= ids.len() {
        assert(res.picks.take(st.picks.len() as int) =~= st.picks);
    } else if ids_of(st.running).contains(ids[i]) {
        lemma_schedule_from(ids, i + 1, dry_run, st);
    } else if st.available.len() == 0 {
        assert(res.picks.take(st.picks.len() as int) =~= st.picks);
    } else {
        let w = st.available.last();
        let st2 = if dry_run {
            SchedState { picks: st.picks.push((i, w)), ..st }
        } else {
            SchedState {
                running: st.running.push((ids[i], w)),
                available: st.available.drop_last(),
                picks: st.picks.push((i, w)),
            }
        };
        assert(res == schedule_from(ids, i + 1, dry_run, st2));
        lemma_schedule_from(ids, i + 1, dry_run, st2);
        assert(st.available.contains(w)) by {
            assert(st.available[st.available.len() - 1] == w);
        }
        if !dry_run {
            assert(ids_of(st2.running) =~= ids_of(st.running).push(ids[i]));
            assert(ids_of(st2.running)[ids_of(st.running).len() as int] == ids[i]);
            assert forall|x: Seq<char>| #[trigger] ids_of(st.running).contains(x) implies ids_of(
                st2.running,
            ).contains(x) by {
                let k = choose|k: int| 0 <= k < ids_of(st.running).len() && ids_of(st.running)[k] == x;
                assert(ids_of(st2.running)[k] == x);
            }
            assert forall|v: usize| #[trigger] st2.available.contains(v) implies st.available.contains(
                v,
            ) by {
                let k = choose|k: int| 0 <= k < st2.available.len() && st2.available[k] == v;
                assert(st.available[k] == v);
            }
        }
        assert(res.picks.take(st2.picks.len() as int) == st2.picks);
        assert(res.picks[st.picks.len() as int] == st2.picks[st.picks.len() as int]);
        assert(res.picks.take(st.picks.len() as int) =~= st.picks) by {
            assert forall|k: int| 0 <= k < st.picks.len() implies res.picks[k] == st.picks[k] by {
                assert(res.picks.take(st2.picks.len() as int)[k] == st2.picks[k]);
            }
        }
        assert forall|k: int| st.picks.len() <= k < res.picks.len() implies {
            let p = #[trigger] res.picks[k];
            &&& i <= p.0 < ids.len()
            &&& !ids_of(st.running).contains(ids[p.0])
            &&& st.available.contains(p.1)
            &&& !dry_run ==> ids_of(res.running).contains(ids[p.0])
        } by {
            if k == st.picks.len() {
                if !dry_run {
                    assert(ids_of(st2.running).contains(ids[i]));
                }
            } else {
                let p = res.picks[k];
                assert(!ids_of(st2.running).contains(ids[p.0]));
                assert(st2.available.contains(p.1));
            }
        }
        if !dry_run && res.available.len() > 0 {
            assert forall|j: int| i <= j < ids.len() implies #[trigger] ids_of(res.running).contains(
                ids[j],
            ) by {
                if j == i {
                    assert(ids_of(st2.running).contains(ids[i]));
                }
            }
        }
    }
}

/// Law: a dry run hands out nothing for real: no task becomes in flight and no
/// worktree stops being free.
pub proof fn law_dry_run_changes_nothing(
    ids: Seq<Seq<char>>,
    running: Seq<(Seq<char>, usize)>,
    available: Seq<usize>,
)
    ensures
        schedule(ids, true, running, available).running == running,
        schedule(ids, true, running, available).available == available,
{
    lemma_schedule_from(ids, 0, true, SchedState { running, available, picks: seq![] });
}

/// Law: every task handed out was polled, was not already in flight, and got a worktree
/// that was free; after a real pass it is in flight.
pub proof fn law_picks_are_fresh(
    ids: Seq<Seq<char>>,
    dry_run: bool,
    running: Seq<(Seq<char>, usize)>,
    available: Seq<usize>,
)
    ensures
        ({
            let r = schedule(ids, dry_run, running, available);
            forall|k: int|
                0 <= k < r.picks.len() ==> {
                    let p = #[trigger] r.picks[k];
                    &&& 0 <= p.0 < ids.len()
                    &&& !ids_of(running).contains(ids[p.0])
                    &&& available.contains(p.1)
                    &&& !dry_run ==> ids_of(r.running).contains(ids[p.0])
                }
        }),
{
    lemma_schedule_from(ids, 0, dry_run, SchedState { running, available, picks: seq![] });
}

/// Law: a real pass that ends with a free worktree has put every polled task in flight,
/// and it uses exactly one free worktree per task handed out.
pub proof fn law_no_ready_task_left_behind(
    ids: Seq<Seq<char>>,
    running: Seq<(Seq<char>, usize)>,
    available: Seq<usize>,
)
    ensures
        ({
            let r = schedule(ids, false, running, available);
            &&& r.available.len() > 0 ==> forall|j: int|
                0 <= j < ids.len() ==> #[trigger] ids_of(r.running).contains(ids[j])
            &&& r.picks.len() == available.len() - r.available.len()
        }),
{
    lemma_schedule_from(ids, 0, false, SchedState { running, available, picks: seq![] });
}

/// Law: finishing a task in flight takes it out of flight and frees its worktree.
pub proof fn law_finish_frees_worktree(
    max: nat,
    running: Seq<(Seq<char>, usize)>,
    available: Seq<usize>,
    j: int,
)
    requires
        partition_ok(max, running, available),
        0 <= j < running.len(),
    ensures
        ({
            let r = finish_view(running, available, running[j].0);
            &&& !ids_of(r.0).contains(running[j].0)
            &&& r.1.contains(running[j].1)
            &&& partition_ok(max, r.0, r.1)
        }),
{
    let id = running[j].0;
    assert(ids_of(running)[j] == id);
    lemma_unique_index(ids_of(running), id, j);
    let r = finish_view(running, available, id);
    lemma_release_worktree(max, running, available, j);
    assert(r.1[r.1.len() - 1] == running[j].1);
    if ids_of(r.0).contains(id) {
        let k = choose|k: int| 0 <= k < ids_of(r.0).len() && ids_of(r.0)[k] == id;
        if k < j {
            assert(ids_of(running)[k] == id);
        } else {
            assert(ids_of(running)[k + 1] == id);
        }
    }
}

} // verus!
