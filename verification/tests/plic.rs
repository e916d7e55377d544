use riscv_vm::devices::plic::{Plic, NUM_CONTEXTS, NUM_SOURCES};

#[test]
fn test_context_helpers() {
    assert_eq!(Plic::m_context(0), 0);
    assert_eq!(Plic::s_context(0), 1);
    assert_eq!(Plic::m_context(1), 2);
    assert_eq!(Plic::s_context(1), 3);
    assert_eq!(Plic::m_context(3), 6);
    assert_eq!(Plic::s_context(3), 7);
}

#[test]
fn test_plic_multi_context() {
    let mut plic = Plic::new();

    // Enable source 1 for hart 1 S-mode (context 3)
    let mut enable = vec![0u32; NUM_CONTEXTS];
    enable[Plic::s_context(1)] = 1 << 1;
    plic.set_enable(&enable);
    plic.set_priority(&[0, 1]);
    plic.set_threshold(&[0, 0, 0, 0]);
    plic.sync_caches();

    plic.set_source_level(1, true);

    // Should be pending for hart 1 S-mode, not hart 0
    assert!(!plic.is_interrupt_pending_for(Plic::s_context(0)));
    assert!(plic.is_interrupt_pending_for(Plic::s_context(1)));
}

#[test]
fn test_plic_claim_complete_context1() {
    let mut plic = Plic::new();
    // Priorities
    let mut prio = vec![0u32; NUM_SOURCES];
    prio[1] = 5;
    prio[10] = 3;
    plic.set_priority(&prio);
    // Enable sources 1 and 10 for context 1 (S-mode)
    let enable_val = (1u32 << 1) | (1u32 << 10);
    let _ = plic.store(0x002000 + 0x80 * 1, 4, enable_val as u64);
    // Threshold 0 for context 1
    let _ = plic.store(0x200000 + 0x1000 * 1, 4, 0);
    plic.sync_caches();
    // Assert device lines
    plic.set_source_level(1, true);
    plic.set_source_level(10, true);

    // Claim highest priority first (source 1)
    let id1 = plic.claim_interrupt_for(1);
    assert_eq!(id1, 1);
    // Next claim should return source 10 (since 1 is active)
    let id2 = plic.claim_interrupt_for(1);
    assert_eq!(id2, 10);
    // Complete source 1
    let _ = plic.store(0x200004 + 0x1000 * 1, 4, 1);
    // Claim again should allow source 1
    let id3 = plic.claim_interrupt_for(1);
    assert_eq!(id3, 1);
}

#[test]
fn test_plic_cache_accessors() {
    let plic = Plic::new();

    // Initial state: all zeros
    assert_eq!(plic.pending_cached(), 0);
    assert_eq!(plic.enable_cached(0), 0);
    assert_eq!(plic.threshold_cached(0), 0);
    assert_eq!(plic.priority_cached(0), 0);

    // Out of bounds returns 0
    assert_eq!(plic.enable_cached(NUM_CONTEXTS + 100), 0);
    assert_eq!(plic.priority_cached(NUM_SOURCES + 100), 0);
}

#[test]
fn test_plic_cache_sync() {
    let mut plic = Plic::new();

    plic.store(0x000000 + 4 * 10, 4, 5).unwrap(); // priority[10] = 5
    plic.store(0x002000, 4, 1 << 10).unwrap(); // enable[0] = bit 10
    plic.store(0x200000, 4, 2).unwrap(); // threshold[0] = 2

    // Set pending via set_source_level
    plic.set_source_level(10, true);

    // Caches should be synced by store() and set_source_level()
    assert_eq!(plic.priority_cached(10), 5);
    assert_eq!(plic.enable_cached(0), 1 << 10);
    assert_eq!(plic.threshold_cached(0), 2);
    assert!((plic.pending_cached() & (1 << 10)) != 0);
}

#[test]
fn test_store_syncs_priority_cache() {
    let mut plic = Plic::new();

    // Write priority for source 5 via MMIO
    plic.store(0x000000 + 4 * 5, 4, 7).unwrap();

    // Cache should be updated
    assert_eq!(plic.priority_cached(5), 7);

    // Authoritative state should match
    assert_eq!(plic.get_priority()[5], 7);
}

#[test]
fn test_store_syncs_enable_cache() {
    let mut plic = Plic::new();

    // Write enable for context 1 (S-mode for hart 0) via MMIO
    plic.store(0x002000 + 0x80 * 1, 4, 0x1234).unwrap();

    // Cache should be updated
    assert_eq!(plic.enable_cached(1), 0x1234);
}

#[test]
fn test_store_syncs_threshold_cache() {
    let mut plic = Plic::new();

    // Write threshold for context 0 via MMIO
    plic.store(0x200000, 4, 3).unwrap();

    // Cache should be updated
    assert_eq!(plic.threshold_cached(0), 3);
}

#[test]
fn test_set_source_level_syncs_cache() {
    let mut plic = Plic::new();

    assert_eq!(plic.pending_cached(), 0);

    plic.set_source_level(5, true);
    assert!((plic.pending_cached() & (1 << 5)) != 0);

    plic.set_source_level(5, false);
    assert!((plic.pending_cached() & (1 << 5)) == 0);
}

#[test]
fn test_fast_pending_check() {
    let mut plic = Plic::new();

    // Setup: source 10, priority 5, enable for ctx 1, threshold 0
    plic.store(0x000000 + 4 * 10, 4, 5).unwrap(); // priority[10] = 5
    plic.store(0x002000 + 0x80 * 1, 4, 1 << 10).unwrap(); // enable[1] = bit 10
    plic.store(0x200000 + 0x1000 * 1, 4, 0).unwrap(); // threshold[1] = 0

    // No interrupt yet (not pending)
    assert!(!plic.is_interrupt_pending_for_fast(1));

    // Set source 10 as pending
    plic.set_source_level(10, true);

    // Now should detect interrupt
    assert!(plic.is_interrupt_pending_for_fast(1));

    // But not for context 0 (not enabled there)
    assert!(!plic.is_interrupt_pending_for_fast(0));
}

#[test]
fn test_fast_check_respects_threshold() {
    let mut plic = Plic::new();

    // Setup: source 5, priority 3
    plic.store(0x000000 + 4 * 5, 4, 3).unwrap();
    plic.store(0x002000, 4, 1 << 5).unwrap(); // enable for ctx 0
    plic.set_source_level(5, true);

    // Threshold 0: should see interrupt
    plic.store(0x200000, 4, 0).unwrap();
    assert!(plic.is_interrupt_pending_for_fast(0));

    // Threshold 3: priority not > threshold, no interrupt
    plic.store(0x200000, 4, 3).unwrap();
    assert!(!plic.is_interrupt_pending_for_fast(0));

    // Threshold 2: priority > threshold, should see interrupt
    plic.store(0x200000, 4, 2).unwrap();
    assert!(plic.is_interrupt_pending_for_fast(0));
}

#[test]
fn test_has_pending_candidate() {
    let mut plic = Plic::new();

    // Setup: source 3 enabled for ctx 0, but not pending
    plic.store(0x002000, 4, 1 << 3).unwrap();
    assert!(!plic.has_pending_candidate(0));

    // Set source 3 as pending
    plic.set_source_level(3, true);
    assert!(plic.has_pending_candidate(0));

    // Clear pending
    plic.set_source_level(3, false);
    assert!(!plic.has_pending_candidate(0));
}

#[test]
fn claim_register_read_claims_and_marks_active() {
    let mut plic = Plic::new();
    plic.store(4 * 7, 4, 2).unwrap();
    plic.store(0x002000, 4, 1 << 7).unwrap();
    plic.set_source_level(7, true);
    assert_eq!(plic.load(0x200004, 4), Ok(7));
    assert_eq!(plic.get_active()[0], 1 << 7);
    // A second claim finds nothing while source 7 is in flight.
    assert_eq!(plic.load(0x200004, 4), Ok(0));
    plic.store(0x200004, 4, 7).unwrap();
    assert_eq!(plic.get_active()[0], 0);
}

#[test]
fn register_reads_and_ignored_accesses() {
    let mut plic = Plic::new();
    plic.store(4 * 3, 4, 9).unwrap();
    assert_eq!(plic.load(4 * 3, 4), Ok(9));
    // Non-word accesses are ignored.
    plic.store(4 * 3, 2, 1).unwrap();
    assert_eq!(plic.load(4 * 3, 2), Ok(0));
    assert_eq!(plic.load(4 * 3, 4), Ok(9));
    // Pending is read-only to software.
    plic.store(0x1000, 4, 0xffff).unwrap();
    assert_eq!(plic.get_pending(), 0);
    plic.update_pending(4);
    assert_eq!(plic.load(0x1000, 4), Ok(1 << 4));
}

#[test]
fn equal_priority_claims_lowest_source() {
    let mut plic = Plic::new();
    plic.store(4 * 2, 4, 4).unwrap();
    plic.store(4 * 9, 4, 4).unwrap();
    plic.store(0x002000, 4, (1 << 2) | (1 << 9)).unwrap();
    plic.set_source_level(9, true);
    plic.set_source_level(2, true);
    assert_eq!(plic.claim_interrupt_for(0), 2);
    assert_eq!(plic.claim_interrupt_for(0), 9);
    assert_eq!(plic.claim_interrupt_for(0), 0);
}

#[test]
fn s_mode_context_default_pending() {
    let mut plic = Plic::new();
    plic.store(4, 4, 1).unwrap();
    plic.store(0x002000 + 0x80, 4, 1 << 1).unwrap();
    assert!(!plic.is_interrupt_pending());
    plic.set_source_level(1, true);
    assert!(plic.is_interrupt_pending());
}
