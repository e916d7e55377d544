use riscv_vm::dram::{Dram, DRAM_BASE};
use riscv_vm::dtb::{write_dtb_to_dram_at, DtbBuilder, DTB_ADDRESS, FDT_MAGIC, FDT_VERSION};

fn be(b: &[u8], at: usize) -> u32 {
    u32::from_be_bytes([b[at], b[at + 1], b[at + 2], b[at + 3]])
}

fn sample() -> Vec<u8> {
    let mut b = DtbBuilder::new();
    b.begin_node("");
    b.add_prop_u32("#address-cells", 2);
    b.add_prop_string_list("compatible", &["riscv-virtio", "simple-bus"]);
    b.begin_node("memory@80000000");
    b.add_prop_string("device_type", "memory");
    b.add_prop_reg64(0x8000_0000, 0x2000_0000);
    b.end_node();
    b.begin_node("soc");
    b.add_prop_empty("ranges");
    b.add_prop_u32_array("interrupts-extended", &[1, 3, 1, 7]);
    b.add_prop_reg64(0x0200_0000, 0x1_0000);
    b.end_node();
    b.end_node();
    b.finish()
}

#[test]
fn header_describes_blob() {
    let dtb = sample();
    assert_eq!(be(&dtb, 0), FDT_MAGIC);
    assert_eq!(be(&dtb, 4) as usize, dtb.len());
    assert_eq!(be(&dtb, 8), 56); // structure block offset
    assert_eq!(be(&dtb, 16), 40); // reservation map offset
    assert_eq!(be(&dtb, 20), FDT_VERSION);
    assert_eq!(be(&dtb, 24), 16);
    let strings_off = be(&dtb, 12) as usize;
    let strings_size = be(&dtb, 32) as usize;
    let struct_size = be(&dtb, 36) as usize;
    assert_eq!(56 + struct_size, strings_off);
    assert_eq!(strings_off + strings_size, dtb.len());
    assert!(dtb[40..56].iter().all(|&b| b == 0));
    // Structure block: root node, then the end token closes it.
    assert_eq!(be(&dtb, 56), 1);
    assert_eq!(be(&dtb, strings_off - 4), 9);
    assert_eq!(struct_size % 4, 0);
}

#[test]
fn property_names_stored_once() {
    let dtb = sample();
    let strings_off = be(&dtb, 12) as usize;
    let strings = &dtb[strings_off..];
    let text = String::from_utf8_lossy(strings);
    assert_eq!(text.matches("reg\0").count(), 1);
    assert!(text.starts_with("#address-cells\0compatible\0device_type\0reg\0"));
}

#[test]
fn node_names_are_padded() {
    let mut b = DtbBuilder::new();
    b.begin_node("ab");
    b.end_node();
    let dtb = b.finish();
    // token, "ab\0" padded to 4, end-node token, end token.
    assert_eq!(be(&dtb, 36), 16);
    assert_eq!(&dtb[56..68], &[0, 0, 0, 1, b'a', b'b', 0, 0, 0, 0, 0, 2]);
}

#[test]
fn string_offsets_are_reused() {
    let mut b = DtbBuilder::new();
    assert_eq!(b.get_string_offset("compatible"), 0);
    assert_eq!(b.get_string_offset("reg"), 11);
    assert_eq!(b.get_string_offset("compatible"), 0);
}

#[test]
fn dtb_written_into_dram() {
    let mut d = Dram::new(DRAM_BASE, 0x0400_0000);
    let dtb = sample();
    assert_eq!(write_dtb_to_dram_at(&mut d, &dtb, DTB_ADDRESS), DTB_ADDRESS);
    let off = (DTB_ADDRESS - DRAM_BASE) as usize;
    assert_eq!(d.read_range(off, dtb.len()).unwrap(), dtb);
}

#[test]
fn dtb_clipped_at_end_of_dram() {
    let mut d = Dram::new(DRAM_BASE, 0x100);
    let dtb = vec![0xAB; 8];
    write_dtb_to_dram_at(&mut d, &dtb, DRAM_BASE + 0xFC);
    assert_eq!(d.read_range(0xFC, 4).unwrap(), vec![0xAB; 4]);
}
