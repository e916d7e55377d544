use riscv_vm::dram::{Dram, MemoryError, DRAM_BASE};

#[test]
fn loads_and_stores_are_little_endian() {
    let mut d = Dram::new(DRAM_BASE, 64);
    assert_eq!(d.size(), 64);
    d.store_64(8, 0x1122_3344_5566_7788).unwrap();
    assert_eq!(d.load_8(8), Ok(0x88));
    assert_eq!(d.load_16(8), Ok(0x7788));
    assert_eq!(d.load_32(12), Ok(0x1122_3344));
    assert_eq!(d.load_64(8), Ok(0x1122_3344_5566_7788));
    d.store_16(0, 0xABCD_EF01).unwrap();
    assert_eq!(d.load_16(0), Ok(0xEF01));
    d.store_8(63, 0x1FF).unwrap();
    assert_eq!(d.load_8(63), Ok(0xFF));
}

#[test]
fn out_of_bounds_and_misaligned() {
    let mut d = Dram::new(DRAM_BASE, 16);
    assert_eq!(d.load_32(13), Err(MemoryError::OutOfBounds(13)));
    assert_eq!(d.load_64(9), Err(MemoryError::OutOfBounds(9)));
    assert_eq!(d.store_8(16, 1), Err(MemoryError::OutOfBounds(16)));
    assert_eq!(d.load_64(u64::MAX - 2), Err(MemoryError::OutOfBounds(u64::MAX - 2)));
    assert_eq!(d.atomic_add_32(2, 1), Err(MemoryError::InvalidAlignment(2)));
    assert_eq!(d.atomic_swap_64(16, 1), Err(MemoryError::OutOfBounds(16)));
    assert_eq!(d.read_range(10, 7), Err(MemoryError::OutOfBounds(10)));
    assert_eq!(d.set_data(&[0u8; 3]), Err(MemoryError::OutOfBounds(3)));
}

#[test]
fn atomics_return_old_value() {
    let mut d = Dram::new(DRAM_BASE, 32);
    d.store_32(0, 10).unwrap();
    assert_eq!(d.atomic_add_32(0, 5), Ok(10));
    assert_eq!(d.atomic_swap_32(0, 7), Ok(15));
    assert_eq!(d.atomic_or_32(0, 8), Ok(7));
    assert_eq!(d.atomic_and_32(0, 0xC), Ok(15));
    assert_eq!(d.atomic_xor_32(0, 0xFF), Ok(12));
    assert_eq!(d.load_32(0), Ok(0xF3));
    assert_eq!(d.atomic_min_32(0, -1), Ok(0xF3));
    assert_eq!(d.atomic_load_32(0), Ok(0xFFFF_FFFF));
    assert_eq!(d.atomic_max_32(0, 3), Ok(-1));
    assert_eq!(d.atomic_minu_32(0, 2), Ok(3));
    assert_eq!(d.atomic_maxu_32(0, 9), Ok(2));
    assert_eq!(d.atomic_compare_exchange_32(0, 1, 5), Ok((false, 9)));
    assert_eq!(d.atomic_cas_32(0, 9, 4), Ok(true));
    assert_eq!(d.load_32(0), Ok(4));
    d.atomic_store_64(8, u64::MAX).unwrap();
    assert_eq!(d.atomic_add_64(8, 2), Ok(u64::MAX));
    assert_eq!(d.atomic_load_64(8), Ok(1));
    assert_eq!(d.atomic_min_64(8, -4), Ok(1));
    assert_eq!(d.atomic_max_64(8, 0), Ok(-4));
    assert_eq!(d.atomic_minu_64(8, 0), Ok(0));
    assert_eq!(d.atomic_maxu_64(8, 6), Ok(0));
    assert_eq!(d.atomic_swap_64(8, 1), Ok(6));
    assert_eq!(d.atomic_and_64(8, 3), Ok(1));
    assert_eq!(d.atomic_or_64(8, 2), Ok(1));
    assert_eq!(d.atomic_xor_64(8, 1), Ok(3));
    assert_eq!(d.atomic_compare_exchange_64(8, 2, 7), Ok((true, 2)));
    assert_eq!(d.atomic_cas_64(8, 0, 1), Ok(false));
    d.atomic_store_32(16, 0xAB).unwrap();
    assert_eq!(d.load_8(16), Ok(0xAB));
}

#[test]
fn bulk_access_and_snapshot() {
    let mut d = Dram::new(DRAM_BASE, 8);
    d.load(&[1, 2, 3], 2).unwrap();
    assert_eq!(d.read_range(0, 6).unwrap(), vec![0, 0, 1, 2, 3, 0]);
    d.zero_range(3, 1).unwrap();
    assert_eq!(d.get_data(), vec![0, 0, 1, 0, 3, 0, 0, 0]);
    d.set_data(&[9; 8]).unwrap();
    assert_eq!(d.get_data(), vec![9; 8]);
    assert_eq!(d.offset(DRAM_BASE + 7), Some(7));
    assert_eq!(d.offset(DRAM_BASE + 8), None);
    assert_eq!(d.offset(DRAM_BASE - 1), None);
    assert_eq!(d.zero_range(7, 2), Err(MemoryError::OutOfBounds(7)));
}
