use riscv_vm::clint::{Clint, MSIP_OFFSET, MTIMECMP_OFFSET};

fn assert_send<T: Send>() {}
fn assert_sync<T: Sync>() {}

#[test]
fn clint_is_thread_safe() {
    assert_send::<Clint>();
    assert_sync::<Clint>();
}

#[test]
fn legacy_clint_store_load_roundtrip() {
    let mut clint = Clint::with_harts(2);
    clint.store(MSIP_OFFSET + 4, 4, 3);
    assert_eq!(clint.load(MSIP_OFFSET + 4, 4), 1);
    clint.store(MTIMECMP_OFFSET + 8, 4, 0xAAAA_BBBB);
    clint.store(MTIMECMP_OFFSET + 12, 4, 0x1);
    assert_eq!(clint.get_mtimecmp(1), 0x1_AAAA_BBBB);
    assert!(!clint.is_timer_pending(1));
    clint.set_mtime(0x1_AAAA_BBBB);
    assert!(clint.is_timer_pending(1));
    assert_eq!(clint.check_interrupts_for_hart(1), (true, true));
}

#[test]
fn legacy_clint_partial_restore_keeps_tail() {
    let mut clint = Clint::new();
    clint.set_mtimecmp(5, 7);
    clint.store(MSIP_OFFSET + 20, 4, 1);
    clint.set_msip_array(&[1]);
    clint.set_mtimecmp_array(&[3]);
    assert_eq!(clint.get_msip(0), 1);
    assert_eq!(clint.get_msip(5), 1);
    assert_eq!(clint.get_mtimecmp(0), 3);
    assert_eq!(clint.get_mtimecmp(5), 7);
}
