//! The task manager: the single source of truth for which task is running and
//! what state every task slot is in, together with the round-robin scheduling
//! decision.
//!
//! All reads and mutations of the registry go through `&mut TaskManager` (or
//! `&TaskManager` for reads), which is this library's form of the exclusive
//! access section: Rust's borrow rules guarantee no two holders overlap.

use vstd::prelude::*;

use crate::task::MAX_SYSCALL_NUM;
use crate::task::TaskContext;
use crate::task::TaskControlBlock;
use crate::task::TaskStatus;

verus! {

/// The slot reached from `cur` by walking `off` places forward, wrapping at
/// `n`. Meaningful for `0 <= cur < n` and `1 <= off <= n`.
pub open spec fn wrap_index(cur: int, off: int, n: int) -> int {
    if cur + off < n {
        cur + off
    } else {
        cur + off - n
    }
}

/// Number of forward steps (wrapping at `n`) from `cur` to `j`; ranges over
/// `1..=n`, with `rr_dist(cur, cur, n) == n`.
pub open spec fn rr_dist(cur: int, j: int, n: int) -> int {
    if j > cur {
        j - cur
    } else {
        j - cur + n
    }
}

/// First `Ready` slot at offset `off` or more from `cur` in round-robin
/// order, or `None` if no offset up to `s.len()` reaches a `Ready` slot.
pub open spec fn sched_next_from(s: Seq<TaskStatus>, cur: int, off: int) -> Option<int>
    decreases s.len() + 1 - off,
{
    if off > s.len() {
        None
    } else if s[wrap_index(cur, off, s.len() as int)] is Ready {
        Some(wrap_index(cur, off, s.len() as int))
    } else {
        sched_next_from(s, cur, off + 1)
    }
}

/// The round-robin scheduling decision: the first `Ready` slot strictly after
/// `cur` in wrapping order (`cur` itself is considered last, at offset
/// `s.len()`), or `None` when no task is `Ready`.
pub open spec fn sched_next(s: Seq<TaskStatus>, cur: int) -> Option<int> {
    sched_next_from(s, cur, 1)
}

/// Walking `rr_dist(cur, j, n)` places forward from `cur` lands exactly on
/// `j`, and that distance is the only offset in `1..=n` that does.
pub proof fn lemma_wrap_dist(cur: int, j: int, n: int)
    requires
        0 <= cur < n,
        0 <= j < n,
    ensures
        1 <= rr_dist(cur, j, n) <= n,
        wrap_index(cur, rr_dist(cur, j, n), n) == j,
        forall|off: int| 1 <= off <= n && wrap_index(cur, off, n) == j ==> off == rr_dist(cur, j, n),
{
}

/// Whatever `sched_next_from` selects is a `Ready` slot in range, at offset
/// at least `off`.
pub proof fn lemma_sched_next_from_selects_ready(s: Seq<TaskStatus>, cur: int, off: int)
    requires
        0 <= cur < s.len(),
        1 <= off,
    ensures
        sched_next_from(s, cur, off) matches Some(k) ==> {
            &&& 0 <= k < s.len()
            &&& s[k] is Ready
            &&& off <= rr_dist(cur, k, s.len() as int) <= s.len()
        },
    decreases s.len() + 1 - off,
{
    let n = s.len() as int;
    if off > n {
    } else if s[wrap_index(cur, off, n)] is Ready {
        let k = wrap_index(cur, off, n);
        lemma_wrap_dist(cur, k, n);
    } else {
        lemma_sched_next_from_selects_ready(s, cur, off + 1);
    }
}

/// If some slot `j` at offset `rr_dist(cur, j, n) >= off` is `Ready`, the
/// scan starting at `off` finds a `Ready` slot no farther than `j`.
pub proof fn lemma_sched_next_from_finds(s: Seq<TaskStatus>, cur: int, off: int, j: int)
    requires
        0 <= cur < s.len(),
        0 <= j < s.len(),
        s[j] is Ready,
        1 <= off <= rr_dist(cur, j, s.len() as int),
    ensures
        sched_next_from(s, cur, off) matches Some(k) && rr_dist(cur, k, s.len() as int)
            <= rr_dist(cur, j, s.len() as int),
    decreases s.len() + 1 - off,
{
    let n = s.len() as int;
    lemma_wrap_dist(cur, j, n);
    let k0 = wrap_index(cur, off, n);
    if s[k0] is Ready {
        lemma_wrap_dist(cur, k0, n);
    } else {
        assert(k0 != j);
        lemma_sched_next_from_finds(s, cur, off + 1, j);
    }
}

/// The scheduling decision selects a `Ready` slot when one exists (so an
/// `Exited` or `UnInit` slot is never selected), and selects `None` exactly
/// when no slot is `Ready`.
pub proof fn lemma_sched_next_characterized(s: Seq<TaskStatus>, cur: int)
    requires
        0 <= cur < s.len(),
    ensures
        sched_next(s, cur) matches Some(k) ==> 0 <= k < s.len() && s[k] is Ready,
        sched_next(s, cur) is None <==> (forall|j: int| 0 <= j < s.len() ==> !(s[j] is Ready)),
{
    lemma_sched_next_from_selects_ready(s, cur, 1);
    if sched_next(s, cur) is None {
        assert forall|j: int| 0 <= j < s.len() implies !(s[j] is Ready) by {
            if s[j] is Ready {
                lemma_wrap_dist(cur, j, s.len() as int);
                lemma_sched_next_from_finds(s, cur, 1, j);
            }
        }
    }
}

/// One cooperative scheduling round as a state transition: the current task
/// goes back to `Ready`, the round-robin decision picks the next task, and
/// that task becomes `Running` and current. Because the yielding task is
/// `Ready` again, a next task always exists (possibly the yielder itself).
pub open spec fn yield_step(s: Seq<TaskStatus>, cur: int) -> (Seq<TaskStatus>, int) {
    let s1 = s.update(cur, TaskStatus::Ready);
    match sched_next(s1, cur) {
        Some(k) => (s1.update(k, TaskStatus::Running), k),
        None => (s1, cur),
    }
}

/// Task exit as a state transition: the current task becomes `Exited`
/// forever, and the round-robin decision either hands control to the next
/// `Ready` task or reports `None`, upon which the kernel halts.
pub open spec fn exit_step(s: Seq<TaskStatus>, cur: int) -> (Seq<TaskStatus>, Option<int>) {
    let s1 = s.update(cur, TaskStatus::Exited);
    match sched_next(s1, cur) {
        Some(k) => (s1.update(k, TaskStatus::Running), Some(k)),
        None => (s1, None),
    }
}

/// An exited task is never the one scheduling selects: the decision only
/// ever picks a `Ready` slot.
pub proof fn lemma_exited_never_selected(s: Seq<TaskStatus>, cur: int, t: int)
    requires
        0 <= cur < s.len(),
        0 <= t < s.len(),
        s[t] is Exited,
    ensures
        sched_next(s, cur) != Some(t),
{
    lemma_sched_next_characterized(s, cur);
}

/// An exit by any task (the exited one included) leaves an exited task
/// `Exited` and never selects it.
pub proof fn lemma_exited_stays_exited_on_exit(s: Seq<TaskStatus>, cur: int, t: int)
    requires
        0 <= cur < s.len(),
        0 <= t < s.len(),
        s[t] is Exited,
    ensures
        exit_step(s, cur).0[t] is Exited,
        exit_step(s, cur).1 != Some(t),
{
    let s1 = s.update(cur, TaskStatus::Exited);
    lemma_sched_next_characterized(s1, cur);
}

/// The registry statuses and current index after `k` consecutive scheduling
/// rounds, each a full `yield_step` by whichever task is then current.
pub open spec fn yield_steps(s: Seq<TaskStatus>, cur: int, k: nat) -> (Seq<TaskStatus>, int)
    decreases k,
{
    if k == 0 {
        (s, cur)
    } else {
        let prev = yield_steps(s, cur, (k - 1) as nat);
        yield_step(prev.0, prev.1)
    }
}

/// Peeling a scheduling round off the front: `k + 1` rounds from a state are
/// one round followed by `k` rounds from its successor.
proof fn lemma_yield_steps_shift(s: Seq<TaskStatus>, cur: int, m: nat)
    ensures
        yield_steps(s, cur, (m + 1) as nat) == yield_steps(
            yield_step(s, cur).0,
            yield_step(s, cur).1,
            m,
        ),
    decreases m,
{
    if m == 0 {
        assert(yield_steps(s, cur, 0) == (s, cur));
    } else {
        lemma_yield_steps_shift(s, cur, (m - 1) as nat);
    }
}

/// Once a task has exited it never runs again: through any number of further
/// scheduling rounds it stays `Exited` and is never the selected current
/// task — while the task actually holding the processor is never an exited
/// one.
pub proof fn lemma_exited_never_runs_again(s: Seq<TaskStatus>, cur: int, t: int, k: nat)
    requires
        0 <= cur < s.len(),
        0 <= t < s.len(),
        s[t] is Exited,
        !(s[cur] is Exited),
    ensures
        yield_steps(s, cur, k).0.len() == s.len(),
        0 <= yield_steps(s, cur, k).1 < s.len(),
        !(yield_steps(s, cur, k).0[yield_steps(s, cur, k).1] is Exited),
        yield_steps(s, cur, k).0[t] is Exited,
        yield_steps(s, cur, k).1 != t,
    decreases k,
{
    if k > 0 {
        lemma_exited_never_runs_again(s, cur, t, (k - 1) as nat);
        let prev = yield_steps(s, cur, (k - 1) as nat);
        let s1 = prev.0.update(prev.1, TaskStatus::Ready);
        lemma_sched_next_characterized(s1, prev.1);
    }
}

/// No starvation under round-robin: if task `j` is `Ready` (or is the task
/// currently holding the processor), then within at most
/// `rr_dist(cur, j, N)` scheduling rounds — never more than `N`, the number
/// of task slots — `j` is selected and becomes the `Running` current task.
pub proof fn lemma_round_robin_no_starvation(s: Seq<TaskStatus>, cur: int, j: int)
    requires
        0 <= cur < s.len(),
        0 <= j < s.len(),
        j == cur || s[j] is Ready,
    ensures
        rr_dist(cur, j, s.len() as int) <= s.len(),
        exists|k: nat|
            1 <= k <= rr_dist(cur, j, s.len() as int) && (#[trigger] yield_steps(s, cur, k)).1 == j
                && yield_steps(s, cur, k).0[j] is Running,
    decreases rr_dist(cur, j, s.len() as int),
{
    let n = s.len() as int;
    let s1 = s.update(cur, TaskStatus::Ready);
    assert(s1[j] is Ready);
    lemma_wrap_dist(cur, j, n);
    lemma_sched_next_from_finds(s1, cur, 1, j);
    lemma_sched_next_from_selects_ready(s1, cur, 1);
    let k0 = sched_next(s1, cur)->Some_0;
    let d = rr_dist(cur, j, n);
    let a = rr_dist(cur, k0, n);
    assert(yield_steps(s, cur, 0) == (s, cur));
    assert(yield_steps(s, cur, 1) == yield_step(s, cur));
    if k0 == j {
        assert(yield_steps(s, cur, 1).1 == j);
        assert(yield_steps(s, cur, 1).0[j] is Running);
        assert(1 <= 1 <= d);
    } else {
        lemma_wrap_dist(cur, k0, n);
        assert(a < d);
        let s2 = s1.update(k0, TaskStatus::Running);
        assert(s2[j] is Ready);
        assert(rr_dist(k0, j, n) == d - a);
        lemma_round_robin_no_starvation(s2, k0, j);
        let m = choose|m: nat|
            1 <= m <= rr_dist(k0, j, n) && (#[trigger] yield_steps(s2, k0, m)).1 == j
                && yield_steps(s2, k0, m).0[j] is Running;
        lemma_yield_steps_shift(s, cur, m);
        assert(yield_step(s, cur).0 == s2 && yield_step(s, cur).1 == k0);
        assert(yield_steps(s, cur, (m + 1) as nat).1 == j);
        assert(yield_steps(s, cur, (m + 1) as nat).0[j] is Running);
        assert(1 <= (m + 1) as nat <= d);
    }
}

/// Two task registries hold the very same slots except possibly for the
/// lifecycle status of each: contexts and accounting records are untouched.
pub open spec fn only_statuses_changed(
    pre: Seq<TaskControlBlock>,
    post: Seq<TaskControlBlock>,
) -> bool {
    &&& post.len() == pre.len()
    &&& forall|i: int|
        0 <= i < pre.len() ==> post[i].task_info == pre[i].task_info && post[i].task_cx
            == pre[i].task_cx
}

/// Global registry of all task control blocks plus the index of the task
/// currently considered running. One per kernel instance; every syscall
/// handler and the scheduler mutate it only through its methods, holding the
/// exclusive `&mut` access for as short a span as the operation requires.
pub struct TaskManager {
    /// One TCB per configured task slot; indices are stable for the run and
    /// slots are never deallocated (an exited task stays addressable).
    pub tasks: Vec<TaskControlBlock>,
    /// Index into `tasks` of the currently executing task.
    pub current_task: usize,
}

impl TaskManager {
    /// The lifecycle statuses of all slots, in slot order.
    pub open spec fn statuses(self) -> Seq<TaskStatus> {
        self.tasks@.map(|i: int, t: TaskControlBlock| t.task_status)
    }

    /// Well-formedness: at least one slot, the current index in range, and
    /// every accounting record fully sized.
    pub open spec fn wf(self) -> bool {
        &&& self.tasks@.len() >= 1
        &&& self.current_task < self.tasks@.len()
        &&& forall|i: int| 0 <= i < self.tasks@.len() ==> self.tasks@[i].wf()
    }

    /// Create a registry of `num_tasks` fresh slots, all `UnInit`, each with a
    /// fresh accounting record stamped `now_ms`, with slot 0 current.
    pub fn new(num_tasks: usize, now_ms: usize) -> (r: Self)
        requires
            num_tasks >= 1,
        ensures
            r.wf(),
            r.tasks@.len() == num_tasks,
            r.current_task == 0,
            forall|i: int| 0 <= i < num_tasks ==> r.statuses()[i] is UnInit,
            forall|i: int| 0 <= i < num_tasks ==> r.tasks@[i].task_info.start_time == now_ms,
            forall|i: int, sid: int|
                0 <= i < num_tasks && 0 <= sid < MAX_SYSCALL_NUM
                    ==> r.tasks@[i].task_info.syscall_times@[sid] == 0,
    {
        let mut tasks: Vec<TaskControlBlock> = Vec::new();
        let mut i: usize = 0;
        while i < num_tasks
            invariant
                i <= num_tasks,
                tasks@.len() == i,
                forall|k: int| 0 <= k < i ==> tasks@[k].wf(),
                forall|k: int| 0 <= k < i ==> tasks@[k].task_status is UnInit,
                forall|k: int| 0 <= k < i ==> tasks@[k].task_info.start_time == now_ms,
                forall|k: int, sid: int|
                    0 <= k < i && 0 <= sid < MAX_SYSCALL_NUM ==> #[trigger] tasks@[
                        k].task_info.syscall_times@[sid] == 0,
            decreases num_tasks - i,
        {
            let t = TaskControlBlock::new(now_ms);
            let ghost pre = tasks@;
            tasks.push(t);
            proof {
                assert forall|k: int, sid: int|
                    0 <= k < i + 1 && 0 <= sid < MAX_SYSCALL_NUM implies #[trigger] tasks@[
                    k].task_info.syscall_times@[sid] == 0 by {
                    if k < i as int {
                        assert(tasks@[k] == pre[k]);
                        assert(pre[k].task_info.syscall_times@[sid] == 0);
                    } else {
                        assert(tasks@[k] == t);
                        assert(t.task_info.syscall_times@[sid] == 0);
                    }
                };
            }
            i = i + 1;
        }
        TaskManager { tasks, current_task: 0 }
    }

    /// Round-robin scan for the next `Ready` slot strictly after the current
    /// one in wrapping order; the current slot itself is considered last.
    pub fn find_next_task(&self) -> (r: Option<usize>)
        requires
            self.wf(),
        ensures
            match r {
                Some(k) => sched_next(self.statuses(), self.current_task as int) == Some(k as int)
                    && k < self.tasks@.len(),
                None => sched_next(self.statuses(), self.current_task as int) is None,
            },
    {
        let n = self.tasks.len();
        let cur = self.current_task;
        let mut scanned: usize = 0;
        while scanned < n
            invariant
                self.wf(),
                n == self.tasks@.len(),
                cur == self.current_task,
                scanned <= n,
                sched_next(self.statuses(), cur as int) == sched_next_from(
                    self.statuses(),
                    cur as int,
                    scanned + 1,
                ),
            decreases n - scanned,
        {
            let off = scanned + 1;
            let idx = if cur >= n - off {
                cur - (n - off)
            } else {
                cur + off
            };
            assert(idx as int == wrap_index(cur as int, off as int, n as int));
            if self.tasks[idx].task_status == TaskStatus::Ready {
                return Some(idx);
            }
            scanned = off;
        }
        None
    }

    /// The lifecycle status of the current task.
    pub open spec fn current_status(self) -> TaskStatus {
        self.statuses()[self.current_task as int]
    }

    /// Current task lookup: the index of the task currently executing.
    pub fn current_id(&self) -> (r: usize)
        ensures
            r == self.current_task,
    {
        self.current_task
    }

    /// Prepare slot `id` for scheduling: store the saved context the loader
    /// built for it and move it from `UnInit` to `Ready`. Nothing else in the
    /// registry changes.
    pub fn prepare_task(&mut self, id: usize, cx: TaskContext)
        requires
            old(self).wf(),
            id < old(self).tasks@.len(),
            old(self).statuses()[id as int] is UnInit,
        ensures
            final(self).wf(),
            final(self).current_task == old(self).current_task,
            final(self).statuses() == old(self).statuses().update(id as int, TaskStatus::Ready),
            final(self).tasks@[id as int].task_cx == cx,
            final(self).tasks@.len() == old(self).tasks@.len(),
            forall|i: int|
                0 <= i < old(self).tasks@.len() ==> final(self).tasks@[i].task_info == old(self).tasks@[i].task_info,
            forall|i: int|
                0 <= i < old(self).tasks@.len() && i != id ==> final(self).tasks@[i] == old(self).tasks@[i],
    {
        self.tasks[id].task_cx = cx;
        self.tasks[id].task_status = TaskStatus::Ready;
        proof {
            assert(final(self).statuses() =~= old(self).statuses().update(
                id as int,
                TaskStatus::Ready,
            ));
        }
    }

    /// Start the very first task: the current slot, which must be `Ready`,
    /// becomes `Running`. The caller then context-switches into it.
    pub fn run_first_task(&mut self)
        requires
            old(self).wf(),
            old(self).current_status() is Ready,
        ensures
            final(self).wf(),
            final(self).current_task == old(self).current_task,
            final(self).statuses() == old(self).statuses().update(
                old(self).current_task as int,
                TaskStatus::Running,
            ),
            final(self).current_status() is Running,
            only_statuses_changed(old(self).tasks@, final(self).tasks@),
    {
        let cur = self.current_task;
        self.tasks[cur].task_status = TaskStatus::Running;
        proof {
            assert(final(self).statuses() =~= old(self).statuses().update(
                cur as int,
                TaskStatus::Running,
            ));
        }
    }

    /// Status transition used by the yield handler: the current task steps
    /// back from `Running` to `Ready` (a no-op transition if it already is
    /// `Ready`), so the scheduler may pick it up again later.
    pub fn mark_current_suspended(&mut self)
        requires
            old(self).wf(),
            old(self).current_status() is Running || old(self).current_status() is Ready,
        ensures
            final(self).wf(),
            final(self).current_task == old(self).current_task,
            final(self).statuses() == old(self).statuses().update(
                old(self).current_task as int,
                TaskStatus::Ready,
            ),
            only_statuses_changed(old(self).tasks@, final(self).tasks@),
    {
        let cur = self.current_task;
        self.tasks[cur].task_status = TaskStatus::Ready;
        proof {
            assert(final(self).statuses() =~= old(self).statuses().update(
                cur as int,
                TaskStatus::Ready,
            ));
        }
    }

    /// Status transition used by the exit handler: the current task becomes
    /// `Exited`, terminally.
    pub fn mark_current_exited(&mut self)
        requires
            old(self).wf(),
            old(self).current_status() is Running || old(self).current_status() is Ready,
        ensures
            final(self).wf(),
            final(self).current_task == old(self).current_task,
            final(self).statuses() == old(self).statuses().update(
                old(self).current_task as int,
                TaskStatus::Exited,
            ),
            only_statuses_changed(old(self).tasks@, final(self).tasks@),
    {
        let cur = self.current_task;
        self.tasks[cur].task_status = TaskStatus::Exited;
        proof {
            assert(final(self).statuses() =~= old(self).statuses().update(
                cur as int,
                TaskStatus::Exited,
            ));
        }
    }

    /// Perform the scheduling decision: if some task is `Ready`, the
    /// round-robin choice becomes `Running` and current, and its index is
    /// returned for the caller to context-switch into. If none is, the
    /// registry is left untouched and `None` tells the caller to halt or
    /// idle — never undefined behaviour.
    pub fn run_next_task(&mut self) -> (r: Option<usize>)
        requires
            old(self).wf(),
        ensures
            final(self).wf(),
            match sched_next(old(self).statuses(), old(self).current_task as int) {
                Some(k) => r == Some(k as usize),
                None => r is None,
            },
            r matches Some(next) ==> {
                &&& next < old(self).tasks@.len()
                &&& old(self).statuses()[next as int] is Ready
                &&& final(self).current_task == next
                &&& final(self).statuses() == old(self).statuses().update(
                    next as int,
                    TaskStatus::Running,
                )
                &&& final(self).current_status() is Running
            },
            r is None ==> final(self).tasks@ == old(self).tasks@ && final(self).current_task == old(self).current_task,
            r is None ==> forall|j: int|
                0 <= j < old(self).tasks@.len() ==> !(old(self).statuses()[j] is Ready),
            only_statuses_changed(old(self).tasks@, final(self).tasks@),
    {
        proof {
            lemma_sched_next_characterized(self.statuses(), self.current_task as int);
        }
        let next_opt = self.find_next_task();
        match next_opt {
            Some(next) => {
                self.tasks[next].task_status = TaskStatus::Running;
                self.current_task = next;
                proof {
                    assert(final(self).statuses() =~= old(self).statuses().update(
                        next as int,
                        TaskStatus::Running,
                    ));
                }
                Some(next)
            },
            None => None,
        }
    }

    /// Cooperative suspension: the current task steps back to `Ready` and the
    /// next task in round-robin order (possibly the same one) is selected and
    /// made `Running`. Exactly `yield_step` on the statuses; because the
    /// yielding task is itself `Ready` again, a next task always exists.
    pub fn suspend_current_and_run_next(&mut self) -> (r: Option<usize>)
        requires
            old(self).wf(),
            old(self).current_status() is Running || old(self).current_status() is Ready,
        ensures
            final(self).wf(),
            final(self).statuses() == yield_step(
                old(self).statuses(),
                old(self).current_task as int,
            ).0,
            final(self).current_task as int == yield_step(
                old(self).statuses(),
                old(self).current_task as int,
            ).1,
            r == Some(final(self).current_task),
            final(self).current_status() is Running,
            only_statuses_changed(old(self).tasks@, final(self).tasks@),
    {
        // An exec read of the length lets the prover see that slot indices
        // fit in usize.
        let n = self.tasks.len();
        assert(old(self).statuses().len() == n);
        self.mark_current_suspended();
        proof {
            let cur = self.current_task as int;
            lemma_sched_next_from_finds(self.statuses(), cur, 1, cur);
            lemma_sched_next_from_selects_ready(self.statuses(), cur, 1);
        }
        let r = self.run_next_task();
        r
    }

    /// Unilateral termination: the current task becomes `Exited` forever and
    /// the next `Ready` task, if any, is selected and made `Running`; `None`
    /// means nothing is runnable any more and the caller must halt. Exactly
    /// `exit_step` on the statuses; the exited task is never the one
    /// selected.
    pub fn exit_current_and_run_next(&mut self) -> (r: Option<usize>)
        requires
            old(self).wf(),
            old(self).current_status() is Running || old(self).current_status() is Ready,
        ensures
            final(self).wf(),
            final(self).statuses() == exit_step(
                old(self).statuses(),
                old(self).current_task as int,
            ).0,
            match exit_step(old(self).statuses(), old(self).current_task as int).1 {
                Some(k) => r == Some(k as usize),
                None => r is None,
            },
            final(self).statuses()[old(self).current_task as int] is Exited,
            r != Some(old(self).current_task),
            r matches Some(next) ==> final(self).current_task == next && final(self).current_status() is Running,
            r is None ==> forall|j: int|
                0 <= j < final(self).tasks@.len() ==> !(final(self).statuses()[j] is Ready),
            only_statuses_changed(old(self).tasks@, final(self).tasks@),
    {
        let n = self.tasks.len();
        assert(old(self).statuses().len() == n);
        self.mark_current_exited();
        proof {
            lemma_sched_next_characterized(self.statuses(), self.current_task as int);
            lemma_sched_next_from_selects_ready(self.statuses(), self.current_task as int, 1);
        }
        let r = self.run_next_task();
        r
    }

    /// Syscall accounting, applied by the dispatch collaborator on every
    /// syscall entry: add `times` to the current task's counter for
    /// `syscall_id`. Checked like
    /// [`TaskInfoBlock::increment_syscall_times`]: a bad id or an overflowing
    /// delta reports `false` and changes nothing.
    pub fn record_syscall(&mut self, syscall_id: usize, times: usize) -> (ok: bool)
        requires
            old(self).wf(),
        ensures
            final(self).wf(),
            final(self).current_task == old(self).current_task,
            final(self).statuses() == old(self).statuses(),
            final(self).tasks@.len() == old(self).tasks@.len(),
            forall|i: int|
                0 <= i < old(self).tasks@.len() && i != old(self).current_task ==> final(self).tasks@[i] == old(self).tasks@[i],
            final(self).tasks@[old(self).current_task as int].task_cx == old(self).tasks@[old(self).current_task as int].task_cx,
            final(self).tasks@[old(self).current_task as int].task_info.start_time == old(self).tasks@[old(self).current_task as int].task_info.start_time,
            ok == (syscall_id < MAX_SYSCALL_NUM && old(self).tasks@[old(self).current_task as int].task_info.syscall_times@[syscall_id as int] + times
                <= u32::MAX),
            ok ==> final(self).tasks@[old(self).current_task as int].task_info.syscall_times@
                == old(self).tasks@[old(self).current_task as int].task_info.syscall_times@.update(
                syscall_id as int,
                (old(self).tasks@[old(self).current_task as int].task_info.syscall_times@[
                    syscall_id as int] + times) as u32,
            ),
            !ok ==> final(self).tasks@ == old(self).tasks@,
    {
        let cur = self.current_task;
        let ok = self.tasks[cur].task_info.increment_syscall_times(syscall_id, times);
        proof {
            assert(final(self).statuses() =~= old(self).statuses());
            if !ok {
                assert(final(self).tasks@ =~= old(self).tasks@);
            }
        }
        ok
    }

    /// Snapshot read for the task-info handler: copy the current task's
    /// status, syscall counters and start time out of the registry, so the
    /// caller can release its access before composing the result.
    pub fn snapshot_current(&self) -> (r: (TaskStatus, Vec<u32>, usize))
        requires
            self.wf(),
        ensures
            r.0 == self.current_status(),
            r.1@ == self.tasks@[self.current_task as int].task_info.syscall_times@,
            r.2 == self.tasks@[self.current_task as int].task_info.start_time,
    {
        let cur = self.current_task;
        let n = self.tasks[cur].task_info.syscall_times.len();
        let mut counts: Vec<u32> = Vec::new();
        let mut i: usize = 0;
        while i < n
            invariant
                self.wf(),
                cur == self.current_task,
                n == self.tasks@[cur as int].task_info.syscall_times@.len(),
                i <= n,
                counts@.len() == i,
                forall|k: int|
                    0 <= k < i ==> counts@[k] == self.tasks@[cur as int].task_info.syscall_times@[
                        k],
            decreases n - i,
        {
            counts.push(self.tasks[cur].task_info.syscall_times[i]);
            i = i + 1;
        }
        proof {
            assert(counts@ =~= self.tasks@[cur as int].task_info.syscall_times@);
        }
        (self.tasks[cur].task_status, counts, self.tasks[cur].task_info.start_time)
    }
}

} // verus!
