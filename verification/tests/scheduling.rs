use task_core::manager::TaskManager;
use task_core::syscall::sys_exit;
use task_core::syscall::sys_yield;
use task_core::task::TaskContext;
use task_core::task::TaskStatus;

fn ready_manager(n: usize, now_ms: usize) -> TaskManager {
    let mut tm = TaskManager::new(n, now_ms);
    for id in 0..n {
        tm.prepare_task(id, TaskContext::zero_init());
    }
    tm
}

#[test]
fn yield_hands_off_round_robin() {
    // Task manager initialized with 2 tasks, both Ready, current_task = 0.
    let mut tm = ready_manager(2, 0);
    assert_eq!(tm.current_task, 0);
    assert_eq!(tm.tasks[0].task_status, TaskStatus::Ready);
    assert_eq!(tm.tasks[1].task_status, TaskStatus::Ready);

    // Task 0 yields: it stays Ready, task 1 is selected and becomes Running.
    let r = sys_yield(&mut tm);
    assert_eq!(r, 0);
    assert_eq!(tm.tasks[0].task_status, TaskStatus::Ready);
    assert_eq!(tm.tasks[1].task_status, TaskStatus::Running);
    assert_eq!(tm.current_task, 1);

    // Task 1 exits: it becomes Exited, task 0 resumes as Running.
    let d = sys_exit(&mut tm, 0);
    assert_eq!(d, Some(0));
    assert_eq!(tm.tasks[1].task_status, TaskStatus::Exited);
    assert_eq!(tm.current_task, 0);
    assert_eq!(tm.tasks[0].task_status, TaskStatus::Running);
}

#[test]
fn no_starvation_within_n_rounds() {
    // With 3 ready tasks, every task becomes Running within 3 rounds of
    // yielding.
    let n = 3;
    let mut tm = ready_manager(n, 0);
    tm.run_first_task();
    let mut ran = vec![false; n];
    ran[tm.current_task] = true;
    for _ in 0..n {
        sys_yield(&mut tm);
        assert_eq!(tm.tasks[tm.current_task].task_status, TaskStatus::Running);
        ran[tm.current_task] = true;
    }
    assert!(ran.iter().all(|&r| r));
}

#[test]
fn yield_with_single_task_reselects_it() {
    let mut tm = ready_manager(1, 0);
    tm.run_first_task();
    let r = sys_yield(&mut tm);
    assert_eq!(r, 0);
    assert_eq!(tm.current_task, 0);
    assert_eq!(tm.tasks[0].task_status, TaskStatus::Running);
}

#[test]
fn exited_task_is_never_selected_again() {
    let mut tm = ready_manager(3, 0);
    tm.run_first_task();
    // Task 0 exits; afterwards many rounds of yields never select it.
    let d = sys_exit(&mut tm, 7);
    assert_eq!(d, Some(1));
    assert_eq!(tm.tasks[0].task_status, TaskStatus::Exited);
    for _ in 0..10 {
        sys_yield(&mut tm);
        assert_ne!(tm.current_task, 0);
        assert_eq!(tm.tasks[0].task_status, TaskStatus::Exited);
    }
}

#[test]
fn exit_of_last_runnable_task_reports_halt() {
    let mut tm = ready_manager(2, 0);
    tm.run_first_task();
    let d0 = sys_exit(&mut tm, 0);
    assert_eq!(d0, Some(1));
    let d1 = sys_exit(&mut tm, 0);
    assert_eq!(d1, None);
    assert_eq!(tm.tasks[0].task_status, TaskStatus::Exited);
    assert_eq!(tm.tasks[1].task_status, TaskStatus::Exited);
}

#[test]
fn scheduler_skips_unprepared_slots() {
    let mut tm = TaskManager::new(3, 0);
    tm.prepare_task(0, TaskContext::zero_init());
    tm.prepare_task(2, TaskContext::zero_init());
    tm.run_first_task();
    // Slot 1 is still UnInit, so yielding from task 0 selects task 2.
    sys_yield(&mut tm);
    assert_eq!(tm.current_task, 2);
    assert_eq!(tm.tasks[1].task_status, TaskStatus::UnInit);
}
