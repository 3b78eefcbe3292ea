//! Types describing one task: its lifecycle status, its saved execution
//! context, and its accounting record (syscall counters and start time).

use vstd::prelude::*;

verus! {

/// Number of syscall identifiers the kernel supports; the per-task counter
/// table has exactly this many slots, indexed by syscall id.
pub const MAX_SYSCALL_NUM: usize = 500;

/// The status of a task in its lifecycle.
///
/// The lifecycle is strict: `UnInit -> Ready -> Running -> Exited`, with the
/// extra transition `Running -> Ready` on yield. No transition returns to
/// `UnInit`, and `Exited` is terminal.
#[derive(Clone, Copy, Debug, PartialEq, Eq, Structural)]
pub enum TaskStatus {
    /// uninitialized: the slot exists but the task image is not prepared
    UnInit,
    /// ready to run: may be selected by the scheduler
    Ready,
    /// currently executing
    Running,
    /// exited: terminal, never scheduled again
    Exited,
}

/// The saved execution context of a suspended task: the minimal machine state
/// the context-switch collaborator needs to resume it. This core only stores
/// and hands over such records; it never interprets them.
#[derive(Clone, Copy, Debug, PartialEq, Eq, Structural)]
pub struct TaskContext {
    /// saved return address
    pub ra: usize,
    /// saved stack pointer
    pub sp: usize,
}

impl TaskContext {
    /// An all-zero context, the value a slot holds before the task image is
    /// loaded.
    pub fn zero_init() -> (cx: Self)
        ensures
            cx.ra == 0,
            cx.sp == 0,
    {
        TaskContext { ra: 0, sp: 0 }
    }
}

/// Per-task instrumentation: one invocation counter per syscall identifier,
/// and the millisecond timestamp at which the task was created.
pub struct TaskInfoBlock {
    /// The numbers of syscalls called by the task, indexed by syscall id.
    pub syscall_times: Vec<u32>,
    /// Millisecond timestamp (since boot) captured at creation; immutable
    /// afterwards.
    pub start_time: usize,
}

impl TaskInfoBlock {
    /// The counter table always has exactly one slot per supported syscall id.
    pub open spec fn wf(self) -> bool {
        self.syscall_times@.len() == MAX_SYSCALL_NUM
    }

    /// Create a fresh accounting record: all counters zero, `start_time` set
    /// to the given current-millisecond reading of the timer collaborator.
    pub fn new(now_ms: usize) -> (r: Self)
        ensures
            r.wf(),
            r.start_time == now_ms,
            forall|i: int| 0 <= i < MAX_SYSCALL_NUM ==> r.syscall_times@[i] == 0,
    {
        let mut counters: Vec<u32> = Vec::new();
        let mut i: usize = 0;
        while i < MAX_SYSCALL_NUM
            invariant
                i <= MAX_SYSCALL_NUM,
                counters@.len() == i,
                forall|k: int| 0 <= k < i ==> counters@[k] == 0,
            decreases MAX_SYSCALL_NUM - i,
        {
            counters.push(0);
            i = i + 1;
        }
        TaskInfoBlock { syscall_times: counters, start_time: now_ms }
    }

    /// Add `times` to the counter for `syscall_id`, as a checked operation:
    /// an out-of-range id or a delta that would overflow the counter leaves
    /// the record untouched and reports the fault as `false`. Counters only
    /// ever increase, and `start_time` never changes.
    pub fn increment_syscall_times(&mut self, syscall_id: usize, times: usize) -> (ok: bool)
        requires
            old(self).wf(),
        ensures
            final(self).wf(),
            final(self).start_time == old(self).start_time,
            ok == (syscall_id < MAX_SYSCALL_NUM
                && old(self).syscall_times@[syscall_id as int] + times <= u32::MAX),
            ok ==> final(self).syscall_times@ == old(self).syscall_times@.update(
                syscall_id as int,
                (old(self).syscall_times@[syscall_id as int] + times) as u32,
            ),
            !ok ==> *final(self) == *old(self),
            forall|i: int| 0 <= i < MAX_SYSCALL_NUM
                ==> final(self).syscall_times@[i] >= old(self).syscall_times@[i],
    {
        if syscall_id >= MAX_SYSCALL_NUM {
            return false;
        }
        let cur: u32 = self.syscall_times[syscall_id];
        if times > (u32::MAX - cur) as usize {
            return false;
        }
        self.syscall_times[syscall_id] = cur + times as u32;
        true
    }
}

/// One syscall dispatch applied to a counter table: the counter at `id`
/// grows by one (wrapping in the model if it ever exceeded the counter
/// width; the checked exec operation refuses that case instead).
pub open spec fn tick(counts: Seq<u32>, id: int) -> Seq<u32> {
    counts.update(id, (counts[id] + 1) as u32)
}

/// The counter table after a task has dispatched the syscalls in `ids`, in
/// order, starting from `counts`.
pub open spec fn apply_syscalls(counts: Seq<u32>, ids: Seq<int>) -> Seq<u32>
    decreases ids.len(),
{
    if ids.len() == 0 {
        counts
    } else {
        apply_syscalls(tick(counts, ids[0]), ids.drop_first())
    }
}

/// How many entries of `ids` equal `s`: the number of calls the task made to
/// syscall id `s`.
pub open spec fn count_of(ids: Seq<int>, s: int) -> nat
    decreases ids.len(),
{
    if ids.len() == 0 {
        0
    } else {
        (if ids[0] == s {
            1nat
        } else {
            0nat
        }) + count_of(ids.drop_first(), s)
    }
}

/// The accounting is exact: after any interleaving `ids` of syscall
/// dispatches, the counter for id `s` reports its old value plus exactly the
/// number of calls made to `s` — whatever other syscalls were interleaved —
/// as long as that counter does not outgrow its width. Started from the
/// all-zero table of a fresh task, the counter for `s` is exactly the number
/// of calls to `s`.
pub proof fn lemma_syscall_counter_reports_calls(counts: Seq<u32>, ids: Seq<int>, s: int)
    requires
        0 <= s < counts.len(),
        forall|i: int| 0 <= i < ids.len() ==> 0 <= #[trigger] ids[i] < counts.len(),
        counts[s] + count_of(ids, s) <= u32::MAX,
    ensures
        apply_syscalls(counts, ids).len() == counts.len(),
        apply_syscalls(counts, ids)[s] == counts[s] + count_of(ids, s),
    decreases ids.len(),
{
    if ids.len() == 0 {
    } else {
        let c1 = tick(counts, ids[0]);
        assert(c1.len() == counts.len());
        if ids[0] == s {
            assert(c1[s] == counts[s] + 1);
        } else {
            assert(c1[s] == counts[s]);
        }
        assert(forall|i: int|
            0 <= i < ids.drop_first().len() ==> 0 <= #[trigger] ids.drop_first()[i]
                < c1.len());
        lemma_syscall_counter_reports_calls(c1, ids.drop_first(), s);
    }
}

/// The task control block (TCB): the unit of schedulable state.
pub struct TaskControlBlock {
    /// The task status in its lifecycle.
    pub task_status: TaskStatus,
    /// The saved execution context, meaningful only to the context-switch
    /// collaborator.
    pub task_cx: TaskContext,
    /// The task's accounting record.
    pub task_info: TaskInfoBlock,
}

impl TaskControlBlock {
    /// A TCB is well formed when its accounting record is.
    pub open spec fn wf(self) -> bool {
        self.task_info.wf()
    }

    /// A freshly created task slot: status `UnInit`, zeroed context, fresh
    /// accounting record stamped with the given creation time.
    pub fn new(now_ms: usize) -> (r: Self)
        ensures
            r.wf(),
            r.task_status is UnInit,
            r.task_cx.ra == 0 && r.task_cx.sp == 0,
            r.task_info.start_time == now_ms,
            forall|i: int| 0 <= i < MAX_SYSCALL_NUM ==> r.task_info.syscall_times@[i] == 0,
    {
        TaskControlBlock {
            task_status: TaskStatus::UnInit,
            task_cx: TaskContext::zero_init(),
            task_info: TaskInfoBlock::new(now_ms),
        }
    }
}

} // verus!
