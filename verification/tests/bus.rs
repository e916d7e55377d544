use riscv_vm::bus::Bus;
use riscv_vm::cpu::types::Trap;

/// 256 bytes of little-endian memory at address 0; reads past the end fault.
struct FlatBus {
    mem: Vec<u8>,
}

impl FlatBus {
    fn new() -> Self {
        FlatBus { mem: vec![0; 256] }
    }

    fn get(&self, addr: u64, n: usize) -> Result<u64, Trap> {
        let a = addr as usize;
        if a + n > self.mem.len() {
            return Err(Trap::LoadAccessFault(addr));
        }
        let mut v = 0u64;
        for i in (0..n).rev() {
            v = (v << 8) | self.mem[a + i] as u64;
        }
        Ok(v)
    }

    fn put(&mut self, addr: u64, n: usize, v: u64) -> Result<(), Trap> {
        let a = addr as usize;
        if a + n > self.mem.len() {
            return Err(Trap::StoreAccessFault(addr));
        }
        for i in 0..n {
            self.mem[a + i] = (v >> (8 * i)) as u8;
        }
        Ok(())
    }
}

impl Bus for FlatBus {
    type State = ();

    fn read8(&mut self, addr: u64) -> Result<u8, Trap> {
        self.get(addr, 1).map(|v| v as u8)
    }
    fn read16(&mut self, addr: u64) -> Result<u16, Trap> {
        self.get(addr, 2).map(|v| v as u16)
    }
    fn read32(&mut self, addr: u64) -> Result<u32, Trap> {
        self.get(addr, 4).map(|v| v as u32)
    }
    fn read64(&mut self, addr: u64) -> Result<u64, Trap> {
        self.get(addr, 8)
    }
    fn write8(&mut self, addr: u64, val: u8) -> Result<(), Trap> {
        self.put(addr, 1, val as u64)
    }
    fn write16(&mut self, addr: u64, val: u16) -> Result<(), Trap> {
        self.put(addr, 2, val as u64)
    }
    fn write32(&mut self, addr: u64, val: u32) -> Result<(), Trap> {
        self.put(addr, 4, val as u64)
    }
    fn write64(&mut self, addr: u64, val: u64) -> Result<(), Trap> {
        self.put(addr, 8, val)
    }
}

#[test]
fn load_and_store_by_width() {
    let mut b = FlatBus::new();
    assert_eq!(b.store(0, 8, 0x1122_3344_5566_7788), Ok(()));
    assert_eq!(b.load(0, 1), Ok(0x88));
    assert_eq!(b.load(0, 2), Ok(0x7788));
    assert_eq!(b.load(0, 4), Ok(0x5566_7788));
    assert_eq!(b.load(0, 8), Ok(0x1122_3344_5566_7788));
    assert_eq!(b.store(8, 2, 0xFFFF_ABCD), Ok(()));
    assert_eq!(b.load(8, 8), Ok(0xABCD));
    assert!(matches!(b.load(0, 3), Err(Trap::Fatal(_))));
    assert!(matches!(b.store(0, 16, 1), Err(Trap::Fatal(_))));
}

#[test]
fn fetch_maps_faults() {
    let mut b = FlatBus::new();
    b.write32(4, 0x0000_0013).unwrap();
    assert_eq!(b.fetch_u32(4), Ok(0x13));
    assert_eq!(b.fetch_u32(6), Err(Trap::InstructionAddressMisaligned(6)));
    assert_eq!(b.fetch_u32(0x1000), Err(Trap::InstructionAccessFault(0x1000)));
}

#[test]
fn word_atomics_sign_extend_old_value() {
    let mut b = FlatBus::new();
    b.write32(16, 0xFFFF_FFFE).unwrap(); // -2
    assert_eq!(b.atomic_add(16, 5, true), Ok(0xFFFF_FFFF_FFFF_FFFE));
    assert_eq!(b.read32(16), Ok(3));
    assert_eq!(b.atomic_swap(16, 0x8000_0000, true), Ok(3));
    assert_eq!(b.atomic_min(16, 7, true), Ok(0xFFFF_FFFF_8000_0000));
    assert_eq!(b.read32(16), Ok(0x8000_0000));
    assert_eq!(b.atomic_minu(16, 7, true), Ok(0xFFFF_FFFF_8000_0000));
    assert_eq!(b.read32(16), Ok(7));
    assert_eq!(b.atomic_maxu(16, 0xFFFF_FFF0, true), Ok(7));
    assert_eq!(b.read32(16), Ok(0xFFFF_FFF0));
}

#[test]
fn doubleword_atomics() {
    let mut b = FlatBus::new();
    b.write64(32, 0b1100).unwrap();
    assert_eq!(b.atomic_and(32, 0b1010, false), Ok(0b1100));
    assert_eq!(b.atomic_or(32, 0b0001, false), Ok(0b1000));
    assert_eq!(b.atomic_xor(32, 0b1111, false), Ok(0b1001));
    assert_eq!(b.read64(32), Ok(0b0110));
    assert_eq!(b.atomic_max(32, u64::MAX, false), Ok(6)); // -1 < 6
    assert_eq!(b.read64(32), Ok(6));
    assert_eq!(b.atomic_maxu(32, u64::MAX, false), Ok(6));
    assert_eq!(b.read64(32), Ok(u64::MAX));
}

#[test]
fn compare_exchange_stores_only_on_match() {
    let mut b = FlatBus::new();
    b.write64(40, 10).unwrap();
    assert_eq!(b.atomic_compare_exchange(40, 11, 99, false), Ok((false, 10)));
    assert_eq!(b.read64(40), Ok(10));
    assert_eq!(b.atomic_compare_exchange(40, 10, 99, false), Ok((true, 10)));
    assert_eq!(b.read64(40), Ok(99));
    assert_eq!(b.atomic_compare_exchange(0x1000, 0, 1, true), Err(Trap::LoadAccessFault(0x1000)));
}

#[test]
fn default_interrupt_polls_are_empty() {
    let mut b = FlatBus::new();
    assert_eq!(b.poll_interrupts(), 0);
    assert_eq!(b.poll_interrupts_for_hart(3), 0);
}
