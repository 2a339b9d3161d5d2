use os3::task::{
    exit_current_and_run_next, run_first_task, suspend_current_and_run_next, RunNext,
    TaskManager, MAX_APP_NUM,
};
use os3::task_context::TaskContext;
use os3::task_status::TaskStatus;

const RESTORE: usize = 0x8020_0000;

fn manager(n: usize) -> TaskManager {
    let stacks: Vec<usize> = (0..n).map(|i| 0x8040_0000 + 0x2000 * (i + 1)).collect();
    TaskManager::new(RESTORE, &stacks)
}

#[test]
fn new_makes_every_task_ready() {
    let tm = manager(3);
    assert_eq!(tm.num_app(), 3);
    assert_eq!(tm.current_task(), 0);
    for i in 0..3 {
        assert_eq!(tm.status(i), TaskStatus::Ready);
        let cx = tm.context(i);
        assert_eq!(cx.ra(), RESTORE);
        assert_eq!(cx.sp(), 0x8040_0000 + 0x2000 * (i + 1));
        for r in 0..12 {
            assert_eq!(cx.saved_reg(r), 0);
        }
    }
}

#[test]
fn run_first_task_loads_task_zero() {
    let mut tm = manager(2);
    let mut live = TaskContext::init_with_ra_and_sp(7, 9);
    run_first_task(&mut tm, &mut live);
    assert_eq!(tm.status(0), TaskStatus::Running);
    assert_eq!(tm.status(1), TaskStatus::Ready);
    assert_eq!(tm.current_task(), 0);
    assert_eq!(live.ra(), RESTORE);
    assert_eq!(live.sp(), 0x8040_2000);
}

#[test]
fn three_task_scenario() {
    let mut tm = manager(3);
    let mut live = TaskContext::init_zero();
    run_first_task(&mut tm, &mut live);

    let r = suspend_current_and_run_next(&mut tm, &mut live);
    assert_eq!(r, RunNext::Switched { from: 0, to: 1 });
    assert_eq!(tm.status(0), TaskStatus::Ready);
    assert_eq!(tm.status(1), TaskStatus::Running);
    assert_eq!(tm.current_task(), 1);

    let r = exit_current_and_run_next(&mut tm, &mut live);
    assert_eq!(r, RunNext::Switched { from: 1, to: 2 });
    assert_eq!(tm.status(1), TaskStatus::Exit);
    assert_eq!(tm.status(2), TaskStatus::Running);
    assert_eq!(tm.current_task(), 2);

    let r = exit_current_and_run_next(&mut tm, &mut live);
    assert_eq!(r, RunNext::Switched { from: 2, to: 0 });
    assert_eq!(tm.status(2), TaskStatus::Exit);
    assert_eq!(tm.status(0), TaskStatus::Running);
    assert_eq!(tm.current_task(), 0);

    let r = exit_current_and_run_next(&mut tm, &mut live);
    assert_eq!(r, RunNext::AllExited);
    for i in 0..3 {
        assert_eq!(tm.status(i), TaskStatus::Exit);
    }
}

#[test]
fn yields_visit_each_task_once_per_cycle() {
    let n = 4;
    let mut tm = manager(n);
    let mut live = TaskContext::init_zero();
    run_first_task(&mut tm, &mut live);
    let mut seen = Vec::new();
    for _ in 0..2 * n {
        match suspend_current_and_run_next(&mut tm, &mut live) {
            RunNext::Switched { to, .. } => seen.push(to),
            RunNext::AllExited => panic!("tasks are still ready"),
        }
    }
    assert_eq!(seen, vec![1, 2, 3, 0, 1, 2, 3, 0]);
}

#[test]
fn exited_task_is_never_scheduled_again() {
    let mut tm = manager(3);
    let mut live = TaskContext::init_zero();
    run_first_task(&mut tm, &mut live);
    assert_eq!(exit_current_and_run_next(&mut tm, &mut live), RunNext::Switched { from: 0, to: 1 });
    for _ in 0..6 {
        match suspend_current_and_run_next(&mut tm, &mut live) {
            RunNext::Switched { to, .. } => assert_ne!(to, 0),
            RunNext::AllExited => panic!("tasks are still ready"),
        }
        assert_eq!(tm.status(0), TaskStatus::Exit);
    }
}

#[test]
fn lone_exit_halts() {
    let mut tm = manager(1);
    let mut live = TaskContext::init_zero();
    run_first_task(&mut tm, &mut live);
    assert_eq!(exit_current_and_run_next(&mut tm, &mut live), RunNext::AllExited);
    assert_eq!(tm.status(0), TaskStatus::Exit);
}

#[test]
fn lone_yield_switches_into_itself_unchanged() {
    let mut tm = manager(1);
    let mut live = TaskContext::init_zero();
    run_first_task(&mut tm, &mut live);
    live = TaskContext::init_with_ra_and_sp(0x1234, 0x5678);
    let r = suspend_current_and_run_next(&mut tm, &mut live);
    assert_eq!(r, RunNext::Switched { from: 0, to: 0 });
    assert_eq!(tm.status(0), TaskStatus::Running);
    assert_eq!(live.ra(), 0x1234);
    assert_eq!(live.sp(), 0x5678);
}

#[test]
fn context_round_trip_restores_live_state() {
    let mut tm = manager(3);
    let mut live = TaskContext::init_zero();
    run_first_task(&mut tm, &mut live);
    live = TaskContext::init_with_ra_and_sp(0xdead, 0xbeef);
    suspend_current_and_run_next(&mut tm, &mut live);
    assert_eq!(tm.context(0).ra(), 0xdead);
    assert_eq!(live.ra(), RESTORE);
    assert_eq!(live.sp(), 0x8040_4000);
    live = TaskContext::init_with_ra_and_sp(0x1111, 0x2222);
    suspend_current_and_run_next(&mut tm, &mut live);
    assert_eq!(live.sp(), 0x8040_6000);
    suspend_current_and_run_next(&mut tm, &mut live);
    assert_eq!(tm.current_task(), 0);
    assert_eq!(live.ra(), 0xdead);
    assert_eq!(live.sp(), 0xbeef);
    suspend_current_and_run_next(&mut tm, &mut live);
    assert_eq!(live.ra(), 0x1111);
    assert_eq!(live.sp(), 0x2222);
}

#[test]
fn find_next_task_wraps_and_skips() {
    let mut tm = manager(3);
    let mut live = TaskContext::init_zero();
    run_first_task(&mut tm, &mut live);
    assert_eq!(tm.find_next_task(), Some(1));
    suspend_current_and_run_next(&mut tm, &mut live);
    suspend_current_and_run_next(&mut tm, &mut live);
    assert_eq!(tm.current_task(), 2);
    assert_eq!(tm.find_next_task(), Some(0));
    tm.mark_current_exited();
    assert_eq!(tm.status(2), TaskStatus::Exit);
    assert_eq!(tm.find_next_task(), Some(0));
}

#[test]
fn mark_current_suspended_sets_ready() {
    let mut tm = manager(2);
    let mut live = TaskContext::init_zero();
    tm.run_first_task(&mut live);
    tm.mark_current_suspended();
    assert_eq!(tm.status(0), TaskStatus::Ready);
    assert_eq!(tm.current_task(), 0);
}

#[test]
fn switch_contexts_saves_then_loads() {
    let mut tm = manager(2);
    let mut live = TaskContext::init_with_ra_and_sp(5, 6);
    tm.switch_contexts(0, 1, &mut live);
    assert_eq!(tm.context(0).ra(), 5);
    assert_eq!(tm.context(0).sp(), 6);
    assert_eq!(live.sp(), 0x8040_4000);
}

#[test]
fn full_table_is_accepted() {
    let tm = manager(MAX_APP_NUM);
    assert_eq!(tm.num_app(), MAX_APP_NUM);
    assert_eq!(tm.status(MAX_APP_NUM - 1), TaskStatus::Ready);
}

#[test]
fn empty_table_has_no_applications() {
    let tm = manager(0);
    assert_eq!(tm.num_app(), 0);
    assert_eq!(tm.current_task(), 0);
}
