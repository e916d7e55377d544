use riscv_vm::devices::clint::{Clint, HART_COUNT_OFFSET, MAX_HARTS, MSIP_OFFSET, MTIMECMP_OFFSET, MTIME_OFFSET};

fn assert_send<T: Send>() {}
fn assert_sync<T: Sync>() {}

#[test]
fn clint_clint_is_thread_safe() {
    assert_send::<Clint>();
    assert_sync::<Clint>();
}

#[test]
fn test_mtimecmp_split_access() {
    let mut clint = Clint::new();

    clint.set_mtimecmp(0, 0x1234_5678_9ABC_DEF0);

    assert_eq!(clint.get_mtimecmp_low(0), 0x9ABC_DEF0);
    assert_eq!(clint.get_mtimecmp_high(0), 0x1234_5678);

    clint.set_mtimecmp_low(0, 0x1111_1111);
    assert_eq!(clint.get_mtimecmp(0), 0x1234_5678_1111_1111);

    clint.set_mtimecmp_high(0, 0x2222_2222);
    assert_eq!(clint.get_mtimecmp(0), 0x2222_2222_1111_1111);
}

#[test]
fn test_num_harts_atomic() {
    let mut clint = Clint::with_harts(4);
    assert_eq!(clint.num_harts(), 4);

    clint.set_num_harts(8);
    assert_eq!(clint.num_harts(), 8);

    clint.set_num_harts(MAX_HARTS + 100);
    assert_eq!(clint.num_harts(), MAX_HARTS);
}

#[test]
fn test_load_msip() {
    let mut clint = Clint::with_harts(4);

    assert_eq!(clint.load(MSIP_OFFSET, 4), 0);
    assert_eq!(clint.load(MSIP_OFFSET + 4, 4), 0);

    clint.set_msip(1, 1);
    assert_eq!(clint.load(MSIP_OFFSET, 4), 0);
    assert_eq!(clint.load(MSIP_OFFSET + 4, 4), 1);
}

#[test]
fn test_load_mtimecmp() {
    let mut clint = Clint::with_harts(2);

    clint.set_mtimecmp(0, 0x1234_5678_9ABC_DEF0);

    assert_eq!(clint.load(MTIMECMP_OFFSET, 8), 0x1234_5678_9ABC_DEF0);

    assert_eq!(clint.load(MTIMECMP_OFFSET, 4), 0x9ABC_DEF0);
    assert_eq!(clint.load(MTIMECMP_OFFSET + 4, 4), 0x1234_5678);
}

#[test]
fn test_load_hart_count() {
    let clint = Clint::with_harts(16);
    assert_eq!(clint.load(HART_COUNT_OFFSET, 4), 16);
}

#[test]
fn test_store_msip() {
    let mut clint = Clint::with_harts(4);

    clint.store(MSIP_OFFSET, 4, 1);
    assert_eq!(clint.get_msip(0), 1);

    clint.store(MSIP_OFFSET, 4, 0xFF);
    assert_eq!(clint.get_msip(0), 1);

    clint.store(MSIP_OFFSET, 4, 0);
    assert_eq!(clint.get_msip(0), 0);
}

#[test]
fn test_store_mtimecmp_64bit() {
    let mut clint = Clint::with_harts(2);

    clint.store(MTIMECMP_OFFSET, 8, 0x1234_5678_9ABC_DEF0);
    assert_eq!(clint.get_mtimecmp(0), 0x1234_5678_9ABC_DEF0);
}

#[test]
fn test_store_mtimecmp_32bit_split() {
    let mut clint = Clint::with_harts(2);

    clint.set_mtimecmp(0, 0);

    clint.store(MTIMECMP_OFFSET, 4, 0xDEAD_BEEF);
    assert_eq!(clint.get_mtimecmp(0), 0x0000_0000_DEAD_BEEF);

    clint.store(MTIMECMP_OFFSET + 4, 4, 0xCAFE_BABE);
    assert_eq!(clint.get_mtimecmp(0), 0xCAFE_BABE_DEAD_BEEF);
}

#[test]
fn test_store_mtime_readonly() {
    let mut clint = Clint::with_harts(1);

    let before = clint.mtime();
    clint.store(MTIME_OFFSET, 8, 0xFFFF_FFFF_FFFF_FFFF);
    let after = clint.mtime();

    assert_eq!(before, after);
}

#[test]
fn test_check_interrupts_msip() {
    let mut clint = Clint::with_harts(4);

    let (msip, timer) = clint.check_interrupts_for_hart(0);
    assert!(!msip);
    assert!(!timer);

    clint.set_msip(0, 1);
    let (msip, timer) = clint.check_interrupts_for_hart(0);
    assert!(msip);
    assert!(!timer);

    let (msip, _) = clint.check_interrupts_for_hart(1);
    assert!(!msip);
}

#[test]
fn test_check_interrupts_timer() {
    let mut clint = Clint::with_harts(2);

    clint.set_mtimecmp(0, 1000);

    clint.set_mtime(999);
    let (_, timer) = clint.check_interrupts_for_hart(0);
    assert!(!timer);

    clint.set_mtime(1000);
    let (_, timer) = clint.check_interrupts_for_hart(0);
    assert!(timer);

    clint.set_mtime(1001);
    let (_, timer) = clint.check_interrupts_for_hart(0);
    assert!(timer);
}

#[test]
fn test_check_interrupts_out_of_bounds() {
    let clint = Clint::with_harts(4);

    let (msip, timer) = clint.check_interrupts_for_hart(MAX_HARTS);
    assert!(!msip);
    assert!(!timer);

    let (msip, timer) = clint.check_interrupts_for_hart(MAX_HARTS + 100);
    assert!(!msip);
    assert!(!timer);
}

#[test]
fn test_clint_snapshot_roundtrip() {
    let mut clint1 = Clint::with_harts(4);

    clint1.set_mtime(12345);
    clint1.set_msip(0, 1);
    clint1.set_msip(2, 1);
    clint1.set_mtimecmp(0, 1000);
    clint1.set_mtimecmp(1, 2000);
    clint1.set_mtimecmp(3, 3000);

    let mtime = clint1.mtime();
    let msip_array = clint1.get_msip_array();
    let mtimecmp_array = clint1.get_mtimecmp_array();
    let num_harts = clint1.num_harts();

    let mut clint2 = Clint::with_harts(num_harts);
    clint2.set_mtime(mtime);
    clint2.set_msip_array(&msip_array);
    clint2.set_mtimecmp_array(&mtimecmp_array);

    assert_eq!(clint2.mtime(), 12345);
    assert_eq!(clint2.get_msip(0), 1);
    assert_eq!(clint2.get_msip(1), 0);
    assert_eq!(clint2.get_msip(2), 1);
    assert_eq!(clint2.get_mtimecmp(0), 1000);
    assert_eq!(clint2.get_mtimecmp(1), 2000);
    assert_eq!(clint2.get_mtimecmp(3), 3000);
}

#[test]
fn test_is_timer_pending() {
    let mut clint = Clint::with_harts(2);

    clint.set_mtimecmp(0, 500);

    clint.set_mtime(100);
    assert!(!clint.is_timer_pending(0));

    clint.set_mtime(500);
    assert!(clint.is_timer_pending(0));

    clint.set_mtime(600);
    assert!(clint.is_timer_pending(0));

    assert!(!clint.is_timer_pending(1));
}

#[test]
fn test_is_msip_pending() {
    let mut clint = Clint::with_harts(2);

    assert!(!clint.is_msip_pending(0));
    assert!(!clint.is_msip_pending(1));

    clint.set_msip(0, 1);
    assert!(clint.is_msip_pending(0));
    assert!(!clint.is_msip_pending(1));

    clint.set_msip(0, 0);
    assert!(!clint.is_msip_pending(0));

    assert!(!clint.is_msip_pending(MAX_HARTS));
}

// Additional scenarios.

#[test]
fn clint_tick_advances_by_increment_and_wraps() {
    let mut clint = Clint::new();
    clint.tick();
    assert_eq!(clint.mtime(), 256);
    clint.increment();
    assert_eq!(clint.mtime(), 512);
    clint.set_mtime(u64::MAX - 10);
    clint.tick();
    assert_eq!(clint.mtime(), 245);
}

#[test]
fn clint_out_of_range_accessors() {
    let mut clint = Clint::new();
    assert_eq!(clint.get_msip(MAX_HARTS), 0);
    assert_eq!(clint.get_mtimecmp(MAX_HARTS), u64::MAX);
    assert_eq!(clint.get_mtimecmp_low(MAX_HARTS), u32::MAX);
    assert_eq!(clint.get_mtimecmp_high(MAX_HARTS), u32::MAX);
    clint.set_mtimecmp(MAX_HARTS, 5);
    clint.set_msip(MAX_HARTS, 1);
    assert_eq!(clint.get_mtimecmp(0), u64::MAX);
    assert_eq!(clint.load(0x0F00, 8), 1);
    assert_eq!(clint.load(0x0F00, 2), 0);
    assert_eq!(clint.load(0xFFF0, 4), 0);
}

#[test]
fn clint_mtime_reads_through_register_space() {
    let mut clint = Clint::new();
    clint.set_mtime(0x1122_3344_5566_7788);
    assert_eq!(clint.load(MTIME_OFFSET, 8), 0x1122_3344_5566_7788);
    assert_eq!(clint.load(MTIME_OFFSET, 4), 0x5566_7788);
    assert_eq!(clint.load(MTIME_OFFSET + 4, 4), 0x1122_3344);
}

#[test]
fn clint_partial_snapshot_restore_resets_tail() {
    let mut clint = Clint::new();
    clint.set_msip(5, 1);
    clint.set_mtimecmp(5, 7);
    clint.set_msip_array(&[1, 0]);
    clint.set_mtimecmp_array(&[3]);
    assert_eq!(clint.get_msip(0), 1);
    assert_eq!(clint.get_msip(5), 0);
    assert_eq!(clint.get_mtimecmp(0), 3);
    assert_eq!(clint.get_mtimecmp(5), u64::MAX);
}
