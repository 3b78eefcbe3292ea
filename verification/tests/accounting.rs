use task_core::manager::TaskManager;
use task_core::syscall::sys_task_info;
use task_core::syscall::sys_yield;
use task_core::syscall::TaskInfo;
use task_core::task::TaskContext;
use task_core::task::TaskInfoBlock;
use task_core::task::TaskStatus;
use task_core::task::MAX_SYSCALL_NUM;

const SYSCALL_YIELD: usize = 124;
const SYSCALL_GET_TIME: usize = 169;
const SYSCALL_TASK_INFO: usize = 410;

fn blank_info() -> TaskInfo {
    TaskInfo { status: TaskStatus::UnInit, syscall_times: vec![0; MAX_SYSCALL_NUM], time: 0 }
}

#[test]
fn fresh_info_block_is_zeroed_and_stamped() {
    let b = TaskInfoBlock::new(1234);
    assert_eq!(b.start_time, 1234);
    assert_eq!(b.syscall_times.len(), MAX_SYSCALL_NUM);
    assert!(b.syscall_times.iter().all(|&c| c == 0));
}

#[test]
fn increment_adds_delta_at_the_given_id_only() {
    let mut b = TaskInfoBlock::new(0);
    assert!(b.increment_syscall_times(SYSCALL_YIELD, 2));
    assert!(b.increment_syscall_times(SYSCALL_YIELD, 3));
    assert_eq!(b.syscall_times[SYSCALL_YIELD], 5);
    for id in 0..MAX_SYSCALL_NUM {
        if id != SYSCALL_YIELD {
            assert_eq!(b.syscall_times[id], 0);
        }
    }
}

#[test]
fn increment_rejects_out_of_range_id() {
    let mut b = TaskInfoBlock::new(0);
    assert!(!b.increment_syscall_times(MAX_SYSCALL_NUM, 1));
    assert!(!b.increment_syscall_times(MAX_SYSCALL_NUM + 40, 1));
    assert!(b.syscall_times.iter().all(|&c| c == 0));
}

#[test]
fn increment_rejects_counter_overflow() {
    let mut b = TaskInfoBlock::new(0);
    assert!(b.increment_syscall_times(3, u32::MAX as usize));
    assert_eq!(b.syscall_times[3], u32::MAX);
    assert!(!b.increment_syscall_times(3, 1));
    assert_eq!(b.syscall_times[3], u32::MAX);
}

#[test]
fn task_info_reports_exact_interleaved_counts() {
    // A task makes k calls to a syscall id; task_info reports exactly k for
    // it, whatever other syscalls are interleaved.
    let mut tm = TaskManager::new(1, 100);
    tm.prepare_task(0, TaskContext::zero_init());
    tm.run_first_task();
    assert!(tm.record_syscall(SYSCALL_GET_TIME, 1));
    assert!(tm.record_syscall(SYSCALL_YIELD, 1));
    assert!(tm.record_syscall(SYSCALL_GET_TIME, 1));
    assert!(tm.record_syscall(SYSCALL_TASK_INFO, 1));
    assert!(tm.record_syscall(SYSCALL_GET_TIME, 1));
    let mut ti = blank_info();
    let r = sys_task_info(&tm, &mut ti, 100);
    assert_eq!(r, 0);
    assert_eq!(ti.syscall_times[SYSCALL_GET_TIME], 3);
    assert_eq!(ti.syscall_times[SYSCALL_YIELD], 1);
    assert_eq!(ti.syscall_times[SYSCALL_TASK_INFO], 1);
    assert_eq!(ti.status, TaskStatus::Running);
    assert_eq!(ti.time, 0);
}

#[test]
fn task_info_time_is_elapsed_and_non_decreasing() {
    // Fresh task created at boot time T0; 50 ms later task_info reports
    // time == 50, and a later call never reports less.
    let t0 = 1_000;
    let mut tm = TaskManager::new(1, t0);
    tm.prepare_task(0, TaskContext::zero_init());
    tm.run_first_task();
    assert!(tm.record_syscall(SYSCALL_TASK_INFO, 1));
    let mut ti = blank_info();
    sys_task_info(&tm, &mut ti, t0 + 50);
    assert_eq!(ti.time, 50);
    assert_eq!(ti.syscall_times[SYSCALL_TASK_INFO], 1);
    for id in 0..MAX_SYSCALL_NUM {
        if id != SYSCALL_TASK_INFO {
            assert_eq!(ti.syscall_times[id], 0);
        }
    }
    let earlier = ti.time;
    assert!(tm.record_syscall(SYSCALL_TASK_INFO, 1));
    sys_task_info(&tm, &mut ti, t0 + 80);
    assert_eq!(ti.time, 80);
    assert!(ti.time >= earlier);
    assert_eq!(ti.syscall_times[SYSCALL_TASK_INFO], 2);
}

#[test]
fn counters_survive_scheduling() {
    // Counters belong to their task: another task running in between does
    // not disturb them.
    let mut tm = TaskManager::new(2, 0);
    tm.prepare_task(0, TaskContext::zero_init());
    tm.prepare_task(1, TaskContext::zero_init());
    tm.run_first_task();
    assert!(tm.record_syscall(SYSCALL_YIELD, 1));
    sys_yield(&mut tm);
    // Now task 1 is current and makes its own calls.
    assert!(tm.record_syscall(SYSCALL_GET_TIME, 1));
    let mut ti = blank_info();
    sys_task_info(&tm, &mut ti, 0);
    assert_eq!(ti.syscall_times[SYSCALL_GET_TIME], 1);
    assert_eq!(ti.syscall_times[SYSCALL_YIELD], 0);
    sys_yield(&mut tm);
    // Back to task 0: its yield count is intact.
    assert_eq!(tm.current_task, 0);
    sys_task_info(&tm, &mut ti, 0);
    assert_eq!(ti.syscall_times[SYSCALL_YIELD], 1);
    assert_eq!(ti.syscall_times[SYSCALL_GET_TIME], 0);
}

#[test]
fn record_syscall_rejects_bad_id_without_touching_state() {
    let mut tm = TaskManager::new(1, 0);
    tm.prepare_task(0, TaskContext::zero_init());
    tm.run_first_task();
    assert!(!tm.record_syscall(MAX_SYSCALL_NUM, 1));
    assert!(tm.tasks[0].task_info.syscall_times.iter().all(|&c| c == 0));
}
