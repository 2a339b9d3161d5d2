use os3::sync::UPSafeCell;
use os3::task_context::TaskContext;
use os3::trap_context::{TrapContext, SSTATUS_SPP};

#[test]
fn zero_context_is_all_zero() {
    let cx = TaskContext::init_zero();
    assert_eq!(cx.ra(), 0);
    assert_eq!(cx.sp(), 0);
    for i in 0..12 {
        assert_eq!(cx.saved_reg(i), 0);
    }
}

#[test]
fn initial_task_context_points_at_restore() {
    let cx = TaskContext::init_with_ra_and_sp(0x8020_1000, 0x8030_2000);
    assert_eq!(cx.ra(), 0x8020_1000);
    assert_eq!(cx.sp(), 0x8030_2000);
    for i in 0..12 {
        assert_eq!(cx.saved_reg(i), 0);
    }
}

#[test]
fn app_init_context_builds_user_frame() {
    let cx = TrapContext::app_init_context(0x8040_0000, 0x8050_0000, SSTATUS_SPP | 0x2);
    assert_eq!(cx.sepc, 0x8040_0000);
    assert_eq!(cx.x[2], 0x8050_0000);
    for i in 0..32 {
        if i != 2 {
            assert_eq!(cx.x[i], 0);
        }
    }
    assert_eq!(cx.sstatus & SSTATUS_SPP, 0);
    assert_eq!(cx.sstatus, 0x2);
}

#[test]
fn app_init_context_keeps_user_spp() {
    let cx = TrapContext::app_init_context(4, 8, 0);
    assert_eq!(cx.sstatus, 0);
    assert_eq!(cx.sepc, 4);
    assert_eq!(cx.x[2], 8);
}

#[test]
fn set_sp_changes_only_the_stack_slot() {
    let mut cx = TrapContext::app_init_context(0x1000, 0x2000, SSTATUS_SPP);
    let before = cx;
    cx.set_sp(0x3000);
    assert_eq!(cx.x[2], 0x3000);
    for i in 0..32 {
        if i != 2 {
            assert_eq!(cx.x[i], before.x[i]);
        }
    }
    assert_eq!(cx.sepc, before.sepc);
    assert_eq!(cx.sstatus, before.sstatus);
}

#[test]
fn cell_writes_through_exclusive_access() {
    let mut cell = UPSafeCell::new(5u32);
    *cell.exclusive_access() += 1;
    assert_eq!(*cell.shared_access(), 6);
}

#[test]
fn app_init_context_keeps_other_status_fields() {
    let fields = os3::trap_context::SSTATUS_KEPT;
    let cx = TrapContext::app_init_context(0x10, 0x20, fields | SSTATUS_SPP);
    assert_eq!(cx.sstatus, fields);
    let again = TrapContext::app_init_context(0x10, 0x20, fields | SSTATUS_SPP);
    assert_eq!(again.sstatus, cx.sstatus);
}
