use riscv_vm::bench::{workload_binary, PRIME_RESULT_OFFSET, WORKLOADS};
use riscv_vm::dram::DRAM_BASE;

fn word(b: &[u8], i: usize) -> u32 {
    u32::from_le_bytes([b[4 * i], b[4 * i + 1], b[4 * i + 2], b[4 * i + 3]])
}

#[test]
fn every_listed_workload_builds() {
    for name in WORKLOADS.iter() {
        let bin = workload_binary(name, DRAM_BASE).unwrap();
        assert!(!bin.is_empty());
        assert_eq!(bin.len() % 8, 0);
    }
}

#[test]
fn unknown_workload_is_none() {
    assert!(workload_binary("fibonacci", DRAM_BASE).is_none());
}

#[test]
fn nop_workload_layout() {
    let bin = workload_binary("nop", DRAM_BASE).unwrap();
    // 32 increments, a jump back to the start, one padding nop.
    assert_eq!(bin.len(), 34 * 4);
    for i in 0..32 {
        assert_eq!(word(&bin, i), 0x0012_8293); // addi x5, x5, 1
    }
    assert_eq!(word(&bin, 32), 0xF81F_F06F); // jal x0, -128
    assert_eq!(word(&bin, 33), 0x0000_0013);
}

#[test]
fn prime_workload_pools_result_address() {
    let bin = workload_binary("prime", DRAM_BASE).unwrap();
    assert_eq!(word(&bin, 0), 0x1F40_0E13); // addi x28, x0, 500
    let n = bin.len();
    let last = u64::from_le_bytes(bin[n - 8..].try_into().unwrap());
    assert_eq!(last, DRAM_BASE + PRIME_RESULT_OFFSET);
}

#[test]
fn ecall_workload_starts_by_clearing_delegation() {
    let bin = workload_binary("ecall", DRAM_BASE).unwrap();
    assert_eq!(word(&bin, 0), 0x3020_1073); // csrrw x0, medeleg, x0
    assert_eq!(word(&bin, 1), 0x3030_1073); // csrrw x0, mideleg, x0
    assert!(bin.windows(4).any(|w| w == 0x3020_0073u32.to_le_bytes()));
}
