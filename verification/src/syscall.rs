//! Process-control syscall handlers: exit, yield, get-time and task-info.
//!
//! Each handler computes a value of a well-defined result type; the narrow
//! "write result to user memory" primitive of the trap collaborator is the
//! only place raw pointers occur, and it lives outside this library. Clock
//! readings likewise come in as arguments: the timer collaborator is read by
//! the caller and this core never touches the hardware.

use vstd::prelude::*;

use crate::manager::exit_step;
use crate::manager::only_statuses_changed;
use crate::manager::yield_step;
use crate::manager::TaskManager;
use crate::task::MAX_SYSCALL_NUM;
use crate::task::TaskStatus;

verus! {

/// The time, as a POSIX-like pair of seconds and microseconds.
#[derive(Clone, Copy, Debug, PartialEq, Eq, Structural)]
pub struct TimeVal {
    /// The number of seconds
    pub sec: usize,
    /// The number of microseconds (always below one million)
    pub usec: usize,
}

/// The single microsecond reading a `TimeVal` stands for.
pub open spec fn total_usec(tv: TimeVal) -> int {
    tv.sec * 1_000_000 + tv.usec
}

/// Milliseconds a task has existed for, given its start time and the clock
/// now.
pub open spec fn elapsed_ms(start: int, now: int) -> int {
    now - start
}

/// Task information reported to user space: lifecycle status, the per-syscall
/// invocation counters, and the task's age in milliseconds.
pub struct TaskInfo {
    /// Task status in its life cycle
    pub status: TaskStatus,
    /// The numbers of syscalls called by the task, indexed by syscall id
    pub syscall_times: Vec<u32>,
    /// Total time since the task was created, in milliseconds
    pub time: usize,
}

impl TaskInfo {
    /// The counter table carries one slot per supported syscall id.
    pub open spec fn wf(self) -> bool {
        self.syscall_times@.len() == MAX_SYSCALL_NUM
    }
}

/// A task exits with an exit code: its status becomes `Exited` forever and
/// the scheduler picks the next `Ready` task. The returned decision is for
/// the trap collaborator: on `Some(next)` it must context-switch into `next`
/// and never hand control back to the exited task; on `None` nothing is
/// runnable and it must halt or idle. Control reaching past that point in
/// the exited task would be a fatal kernel bug. The exit code is consumed by
/// the surrounding kernel's logging only, so it does not influence the state.
pub fn sys_exit(tm: &mut TaskManager, _exit_code: i32) -> (r: Option<usize>)
    requires
        old(tm).wf(),
        old(tm).current_status() is Running || old(tm).current_status() is Ready,
    ensures
        final(tm).wf(),
        final(tm).statuses() == exit_step(old(tm).statuses(), old(tm).current_task as int).0,
        match exit_step(old(tm).statuses(), old(tm).current_task as int).1 {
            Some(k) => r == Some(k as usize),
            None => r is None,
        },
        final(tm).statuses()[old(tm).current_task as int] is Exited,
        r != Some(old(tm).current_task),
        r matches Some(next) ==> final(tm).current_task == next
            && final(tm).current_status() is Running,
        r is None ==> forall|j: int|
            0 <= j < final(tm).tasks@.len() ==> !(final(tm).statuses()[j] is Ready),
        only_statuses_changed(old(tm).tasks@, final(tm).tasks@),
{
    tm.exit_current_and_run_next()
}

/// The current task voluntarily gives up the processor: it steps back to
/// `Ready` and the next task in round-robin order (possibly itself, if
/// nothing else is `Ready`) becomes `Running` and current. This is the only
/// place control may hand off without an interrupt; the caller
/// context-switches into `final(tm).current_task`, and the yielding task
/// resumes here later and sees the return value 0.
pub fn sys_yield(tm: &mut TaskManager) -> (r: isize)
    requires
        old(tm).wf(),
        old(tm).current_status() is Running || old(tm).current_status() is Ready,
    ensures
        r == 0,
        final(tm).wf(),
        final(tm).statuses() == yield_step(old(tm).statuses(), old(tm).current_task as int).0,
        final(tm).current_task as int == yield_step(
            old(tm).statuses(),
            old(tm).current_task as int,
        ).1,
        final(tm).current_status() is Running,
        only_statuses_changed(old(tm).tasks@, final(tm).tasks@),
{
    let _ = tm.suspend_current_and_run_next();
    0
}

/// Get the time with second and microsecond precision: `now_us` is the
/// monotonic microsecond reading the caller took from the timer
/// collaborator, and the result slot receives it split into whole seconds
/// and the microsecond remainder, losing nothing: the two fields always
/// recompose to exactly `now_us`. The timezone argument is accepted and
/// ignored, matching a POSIX-like surface.
pub fn sys_get_time(ts: &mut TimeVal, _tz: usize, now_us: usize) -> (r: isize)
    ensures
        r == 0,
        final(ts).sec == now_us as int / 1_000_000,
        final(ts).usec == now_us as int % 1_000_000,
        total_usec(*final(ts)) == now_us,
{
    ts.sec = now_us / 1_000_000;
    ts.usec = now_us % 1_000_000;
    proof {
        vstd::arithmetic::div_mod::lemma_fundamental_div_mod(now_us as int, 1_000_000);
    }
    0
}

/// Report the current task's status, syscall counters and age. The snapshot
/// is copied out of the registry first (releasing the exclusive access), and
/// only then is the result composed and stored into the caller's output
/// slot; `now_ms` is the millisecond clock reading the caller took. The
/// reported `time` is exactly `now_ms - start_time`; the reported counters
/// are exactly the task's counters at snapshot time.
pub fn sys_task_info(tm: &TaskManager, ti: &mut TaskInfo, now_ms: usize) -> (r: isize)
    requires
        tm.wf(),
        now_ms >= tm.tasks@[tm.current_task as int].task_info.start_time,
    ensures
        r == 0,
        final(ti).wf(),
        final(ti).status == tm.current_status(),
        final(ti).syscall_times@ == tm.tasks@[tm.current_task as int].task_info.syscall_times@,
        final(ti).time == elapsed_ms(
            tm.tasks@[tm.current_task as int].task_info.start_time as int,
            now_ms as int,
        ),
{
    let (status, counts, start_time) = tm.snapshot_current();
    ti.status = status;
    ti.syscall_times = counts;
    ti.time = now_ms - start_time;
    0
}

/// The age a still-running task reports is monotonically non-decreasing
/// across repeated `sys_task_info` calls: the start time is immutable and
/// the clock is monotonic, so a later reading never yields a smaller
/// elapsed time.
pub proof fn lemma_task_info_time_monotonic(start: int, now1: int, now2: int)
    requires
        start <= now1 <= now2,
    ensures
        elapsed_ms(start, now1) <= elapsed_ms(start, now2),
{
}

/// Round trip of `sys_get_time`: two readings separated by at least `delta`
/// microseconds produce `TimeVal`s whose recomposed totals
/// (`sec * 1_000_000 + usec`) also differ by at least `delta`.
pub proof fn lemma_get_time_round_trip(tv1: TimeVal, tv2: TimeVal, us1: int, us2: int, delta: int)
    requires
        total_usec(tv1) == us1,
        total_usec(tv2) == us2,
        us2 >= us1 + delta,
    ensures
        total_usec(tv2) - total_usec(tv1) >= delta,
{
}

} // verus!
