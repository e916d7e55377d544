//! The machine's device tree: the nodes and properties that describe a
//! memory map, its harts and the devices attached to it, built into a blob.

use vstd::prelude::*;
use vstd::string::StrSliceExecFns;
use vstd::string::StringExecFns;
use crate::devices::plic::VIRTIO0_IRQ;
use crate::dtb::{DtbBuilder, DtbView, FDT_BEGIN_NODE, FDT_END_NODE, be32, be32s, cstr, cstrs, fdt_blob, pad4, with_prop};

verus! {

/// Digit `d` (below 16) in lower-case hexadecimal notation.
pub open spec fn digit_char(d: nat) -> char {
    if d < 10 { (48 + d) as char } else { (87 + d) as char }
}

/// `n` written in base `base` (2 to 16), most significant digit first,
/// without leading zeros.
pub open spec fn radix_str(n: nat, base: nat) -> Seq<char>
    decreases n,
{
    if base < 2 || n < base {
        seq![digit_char(n)]
    } else {
        proof {
            vstd::arithmetic::div_mod::lemma_div_decreases(n as int, base as int);
        }
        radix_str(n / base, base).push(digit_char(n % base))
    }
}

/// Append `n` in base `base` to `s`.
fn append_radix(s: &mut String, n: u64, base: u64)
    requires
        2 <= base <= 16,
    ensures
        final(s)@ == old(s)@ + radix_str(n as nat, base as nat),
    decreases n,
{
    if n >= base {
        proof {
            vstd::arithmetic::div_mod::lemma_div_decreases(n as int, base as int);
        }
        append_radix(s, n / base, base);
    }
    let d = (n % base) as usize;
    let digits = "0123456789abcdef";
    proof {
        reveal_strlit("0123456789abcdef");
    }
    let one = digits.substring_char(d, d + 1);
    proof {
        assert(digits@[d as int] == digit_char(d as nat));
        assert(one@ =~= seq![digit_char(d as nat)]);
        if n >= base {
            assert(radix_str(n as nat, base as nat) == radix_str((n / base) as nat, base as nat).push(digit_char(d as nat)));
        }
    }
    let ghost before = s@;
    s.append(one);
    proof {
        if n >= base {
            assert(s@ =~= old(s)@ + radix_str(n as nat, base as nat));
        } else {
            assert(s@ =~= old(s)@ + radix_str(n as nat, base as nat));
        }
    }
}

/// `prefix` followed by `n` in base `base`.
fn numbered(prefix: &str, n: u64, base: u64) -> (r: String)
    requires
        2 <= base <= 16,
    ensures
        r@ == prefix@ + radix_str(n as nat, base as nat),
{
    let mut s = String::from_str(prefix);
    append_radix(&mut s, n, base);
    s
}


/// One step of building a tree: open a node, close it, or add a property
/// with its value bytes.
pub enum DtOp {
    Begin(Seq<char>),
    End,
    Prop(Seq<char>, Seq<u8>),
}

/// The builder's state after one step.
#[verifier::opaque]
pub open spec fn step(v: DtbView, op: DtOp) -> DtbView {
    match op {
        DtOp::Begin(name) => DtbView { structure: pad4(v.structure + be32(FDT_BEGIN_NODE) + cstr(name)), ..v },
        DtOp::End => DtbView { structure: v.structure + be32(FDT_END_NODE), ..v },
        DtOp::Prop(name, value) => with_prop(v, name, value),
    }
}

/// The builder's state after the steps `ops`, in order.
#[verifier::opaque]
pub open spec fn run(v: DtbView, ops: Seq<DtOp>) -> DtbView
    decreases ops.len(),
{
    if ops.len() == 0 {
        v
    } else {
        step(run(v, ops.drop_last()), ops.last())
    }
}

proof fn lemma_run_push(v: DtbView, ops: Seq<DtOp>, op: DtOp)
    ensures
        run(v, ops.push(op)) == step(run(v, ops), op),
{
    reveal(run);
    assert(ops.push(op).drop_last() =~= ops);
}

/// No steps, no change.
proof fn lemma_run_empty(v: DtbView)
    ensures
        run(v, Seq::empty()) == v,
{
    reveal(run);
}

/// Opening a node.
proof fn lemma_step_begin(v: DtbView, name: Seq<char>)
    ensures
        step(v, DtOp::Begin(name)) == (DtbView { structure: pad4(v.structure + be32(FDT_BEGIN_NODE) + cstr(name)), ..v }),
{
    reveal(step);
}

/// Closing a node.
proof fn lemma_step_end(v: DtbView)
    ensures
        step(v, DtOp::End) == (DtbView { structure: v.structure + be32(FDT_END_NODE), ..v }),
{
    reveal(step);
}

/// Adding a property.
proof fn lemma_step_prop(v: DtbView, name: Seq<char>, value: Seq<u8>)
    ensures
        step(v, DtOp::Prop(name, value)) == with_prop(v, name, value),
{
    reveal(step);
}

/// A fresh builder's state.
pub open spec fn empty_dtb() -> DtbView {
    DtbView { structure: Seq::empty(), strings: Seq::empty(), names: Seq::empty() }
}

/// A string property.
pub open spec fn str_prop(name: Seq<char>, value: Seq<char>) -> DtOp {
    DtOp::Prop(name, cstr(value))
}

/// A string-list property.
pub open spec fn list_prop(name: Seq<char>, values: Seq<Seq<char>>) -> DtOp {
    DtOp::Prop(name, cstrs(values))
}

/// A one-cell property.
pub open spec fn cell_prop(name: Seq<char>, value: u32) -> DtOp {
    DtOp::Prop(name, be32(value))
}

/// A property of several cells.
pub open spec fn cells_prop(name: Seq<char>, values: Seq<u32>) -> DtOp {
    DtOp::Prop(name, be32s(values))
}

/// A property without a value.
pub open spec fn flag_prop(name: Seq<char>) -> DtOp {
    DtOp::Prop(name, Seq::empty())
}

/// A `reg` property: 64-bit address and size, two cells each.
pub open spec fn reg_prop(address: u64, size: u64) -> DtOp {
    DtOp::Prop("reg"@, be32s(seq![(address >> 32u64) as u32, address as u32, (size >> 32u64) as u32, size as u32]))
}

/// `n` in lower-case hexadecimal.
pub open spec fn hex(n: u64) -> Seq<char> {
    radix_str(n as nat, 16)
}

/// A device window.
#[derive(Clone, Copy)]
pub struct DtWindow {
    pub base: u64,
    pub size: u64,
}

/// The platform interrupt controller as the tree describes it.
pub struct DtPlic {
    pub base: u64,
    /// Size of the register window that the tree advertises.
    pub dtb_size: u64,
    /// Number of interrupt sources.
    pub ndev: u32,
    pub compatible: String,
}

/// The UART as the tree describes it.
pub struct DtUart {
    pub base: u64,
    pub size: u64,
    pub irq: u32,
    pub compatible: String,
}

/// The VirtIO MMIO windows: `max_slots` windows of `stride` bytes from `base`.
#[derive(Clone, Copy)]
pub struct DtVirtio {
    pub base: u64,
    pub stride: u64,
    pub max_slots: usize,
}

/// A machine's memory map and identity, as plain values.
pub struct MemoryMap {
    /// Root `compatible` strings, most specific first.
    pub compatible: Vec<String>,
    pub model: String,
    /// The `riscv,isa` string of every hart.
    pub isa: String,
    pub timebase_hz: u32,
    pub dram_base: u64,
    pub clint: Option<DtWindow>,
    pub plic: DtPlic,
    pub uart: DtUart,
    pub virtio: Option<DtVirtio>,
    /// Whether the board's D1 peripherals may be listed.
    pub d1_peripherals: bool,
}

/// The devices present when the tree is generated.
#[derive(Clone, Copy, Default)]
pub struct AttachedDevices {
    pub has_display: bool,
    pub has_mmc: bool,
    pub has_emac: bool,
    pub has_touch: bool,
    pub has_audio: bool,
    pub virtio_count: usize,
}

/// The root `compatible` strings of a map.
pub open spec fn compat_strs(map: MemoryMap) -> Seq<Seq<char>> {
    Seq::new(map.compatible@.len(), |i: int| map.compatible@[i]@)
}

/// Root properties, `chosen`, and the head of `cpus`.
#[verifier::opaque]
pub open spec fn head_ops(map: MemoryMap) -> Seq<DtOp> {
    seq![
        DtOp::Begin(""@),
        cell_prop("#address-cells"@, 2),
        cell_prop("#size-cells"@, 2),
        list_prop("compatible"@, compat_strs(map)),
        str_prop("model"@, map.model@),
        DtOp::Begin("chosen"@),
        str_prop("bootargs"@, "earlycon=sbi console=ttyS0"@),
        str_prop("stdout-path"@, "/soc/serial@"@ + hex(map.uart.base)),
        DtOp::End,
        DtOp::Begin("cpus"@),
        cell_prop("#address-cells"@, 1),
        cell_prop("#size-cells"@, 0),
        cell_prop("timebase-frequency"@, map.timebase_hz),
    ]
}

/// The node of hart `h`, with its local interrupt controller (phandle h + 1).
#[verifier::opaque]
pub open spec fn hart_ops(isa: Seq<char>, h: nat) -> Seq<DtOp> {
    seq![
        DtOp::Begin("cpu@"@ + radix_str(h, 10)),
        str_prop("device_type"@, "cpu"@),
        cell_prop("reg"@, h as u32),
        str_prop("status"@, "okay"@),
        str_prop("compatible"@, "riscv"@),
        str_prop("riscv,isa"@, isa),
        str_prop("mmu-type"@, "riscv,sv39"@),
        DtOp::Begin("interrupt-controller"@),
        cell_prop("#interrupt-cells"@, 1),
        flag_prop("interrupt-controller"@),
        str_prop("compatible"@, "riscv,cpu-intc"@),
        cell_prop("phandle"@, (h + 1) as u32),
        DtOp::End,
        DtOp::End,
    ]
}

/// The nodes of harts 0 to k - 1.
pub open spec fn harts_ops(isa: Seq<char>, k: nat) -> Seq<DtOp>
    decreases k,
{
    if k == 0 { seq![] } else { harts_ops(isa, (k - 1) as nat) + hart_ops(isa, (k - 1) as nat) }
}

/// Interrupt cells naming, for each of the first `k` harts, its local
/// controller (phandle h + 1) with cause `a`, then with cause `b`.
pub open spec fn intr_cells(k: nat, a: u32, b: u32) -> Seq<u32>
    decreases k,
{
    if k == 0 { seq![] } else { intr_cells((k - 1) as nat, a, b) + seq![k as u32, a, k as u32, b] }
}

/// End of `cpus`, the memory node, and the head of `soc`.
#[verifier::opaque]
pub open spec fn memory_ops(map: MemoryMap, memory_size: u64) -> Seq<DtOp> {
    seq![
        DtOp::End,
        DtOp::Begin("memory@"@ + hex(map.dram_base)),
        str_prop("device_type"@, "memory"@),
        reg_prop(map.dram_base, memory_size),
        DtOp::End,
        DtOp::Begin("soc"@),
        cell_prop("#address-cells"@, 2),
        cell_prop("#size-cells"@, 2),
        str_prop("compatible"@, "simple-bus"@),
        flag_prop("ranges"@),
    ]
}

/// The CLINT node, where the map has one: software (3) and timer (7)
/// interrupts of every hart.
#[verifier::opaque]
pub open spec fn clint_ops(map: MemoryMap, num_harts: nat) -> Seq<DtOp> {
    match map.clint {
        Some(c) => seq![
            DtOp::Begin("clint@"@ + hex(c.base)),
            str_prop("compatible"@, "riscv,clint0"@),
            reg_prop(c.base, c.size),
            cells_prop("interrupts-extended"@, intr_cells(num_harts, 3, 7)),
            DtOp::End,
        ],
        None => seq![],
    }
}

/// The PLIC node (phandle 100): supervisor (9) and machine (11) external
/// interrupts of every hart.
#[verifier::opaque]
pub open spec fn plic_ops(map: MemoryMap, num_harts: nat) -> Seq<DtOp> {
    seq![
        DtOp::Begin("interrupt-controller@"@ + hex(map.plic.base)),
        str_prop("compatible"@, map.plic.compatible@),
        cell_prop("#interrupt-cells"@, 1),
        flag_prop("interrupt-controller"@),
        reg_prop(map.plic.base, map.plic.dtb_size),
        cell_prop("riscv,ndev"@, map.plic.ndev),
        cell_prop("phandle"@, 100),
        cells_prop("interrupts-extended"@, intr_cells(num_harts, 9, 11)),
        DtOp::End,
    ]
}

/// The UART node.
#[verifier::opaque]
pub open spec fn uart_ops(map: MemoryMap) -> Seq<DtOp> {
    seq![
        DtOp::Begin("serial@"@ + hex(map.uart.base)),
        str_prop("compatible"@, map.uart.compatible@),
        reg_prop(map.uart.base, map.uart.size),
        cell_prop("clock-frequency"@, 3686400),
        cell_prop("interrupts"@, map.uart.irq),
        cell_prop("interrupt-parent"@, 100),
        DtOp::End,
    ]
}

/// Number of VirtIO nodes: the attached devices, as far as the map has windows.
pub open spec fn virtio_nodes(map: MemoryMap, attached: AttachedDevices) -> nat {
    match map.virtio {
        Some(v) => if attached.virtio_count < v.max_slots { attached.virtio_count as nat } else { v.max_slots as nat },
        None => 0,
    }
}

/// The node of VirtIO window `i` (interrupt i + 1).
#[verifier::opaque]
pub open spec fn virtio_slot_ops(v: DtVirtio, i: nat) -> Seq<DtOp> {
    let addr = (v.base + i * v.stride) as u64;
    seq![
        DtOp::Begin("virtio@"@ + hex(addr)),
        str_prop("compatible"@, "virtio,mmio"@),
        reg_prop(addr, v.stride),
        cell_prop("interrupts"@, (1 + i) as u32),
        cell_prop("interrupt-parent"@, 100),
        DtOp::End,
    ]
}

/// The nodes of VirtIO windows 0 to k - 1.
pub open spec fn virtio_slots_ops(v: DtVirtio, k: nat) -> Seq<DtOp>
    decreases k,
{
    if k == 0 { seq![] } else { virtio_slots_ops(v, (k - 1) as nat) + virtio_slot_ops(v, (k - 1) as nat) }
}

/// The VirtIO nodes of a map.
pub open spec fn virtio_ops(map: MemoryMap, attached: AttachedDevices) -> Seq<DtOp> {
    match map.virtio {
        Some(v) => virtio_slots_ops(v, virtio_nodes(map, attached)),
        None => seq![],
    }
}

/// The D1 display nodes.
#[verifier::opaque]
pub open spec fn d1_display_ops() -> Seq<DtOp> {
    seq![
        DtOp::Begin("display-engine@5100000"@),
        str_prop("compatible"@, "allwinner,sun20i-d1-de2"@),
        reg_prop(0x0510_0000u64, 0x10000u64),
        cell_prop("interrupts"@, 42),
        cell_prop("interrupt-parent"@, 100),
        str_prop("status"@, "okay"@),
        DtOp::End,
        DtOp::Begin("lcd-controller@5461000"@),
        str_prop("compatible"@, "allwinner,sun20i-d1-tcon-lcd"@),
        reg_prop(0x0546_1000u64, 0x1000u64),
        cell_prop("interrupts"@, 106),
        cell_prop("interrupt-parent"@, 100),
        str_prop("status"@, "okay"@),
        DtOp::End,
    ]
}

/// The D1 mmc nodes.
#[verifier::opaque]
pub open spec fn d1_mmc_ops() -> Seq<DtOp> {
    seq![
        DtOp::Begin("mmc@4020000"@),
        str_prop("compatible"@, "allwinner,sun20i-d1-mmc"@),
        reg_prop(0x0402_0000u64, 0x1000u64),
        cell_prop("interrupts"@, 56),
        cell_prop("interrupt-parent"@, 100),
        str_prop("status"@, "okay"@),
        DtOp::End,
    ]
}

/// The D1 emac nodes.
#[verifier::opaque]
pub open spec fn d1_emac_ops() -> Seq<DtOp> {
    seq![
        DtOp::Begin("ethernet@4500000"@),
        str_prop("compatible"@, "allwinner,sun20i-d1-emac"@),
        reg_prop(0x0450_0000u64, 0x1000u64),
        cell_prop("interrupts"@, 62),
        cell_prop("interrupt-parent"@, 100),
        str_prop("status"@, "okay"@),
        DtOp::End,
    ]
}

/// The D1 touch nodes.
#[verifier::opaque]
pub open spec fn d1_touch_ops() -> Seq<DtOp> {
    seq![
        DtOp::Begin("i2c@2502000"@),
        str_prop("compatible"@, "allwinner,sun20i-d1-i2c"@),
        reg_prop(0x0250_2000u64, 0x400u64),
        cell_prop("#address-cells"@, 1),
        cell_prop("#size-cells"@, 0),
        cell_prop("interrupts"@, 25),
        cell_prop("interrupt-parent"@, 100),
        str_prop("status"@, "okay"@),
        DtOp::Begin("touchscreen@14"@),
        str_prop("compatible"@, "goodix,gt911"@),
        cell_prop("reg"@, 0x14),
        cell_prop("interrupts"@, 35),
        cell_prop("interrupt-parent"@, 100),
        str_prop("status"@, "okay"@),
        DtOp::End,
        DtOp::End,
    ]
}

/// The D1 audio nodes.
#[verifier::opaque]
pub open spec fn d1_audio_ops() -> Seq<DtOp> {
    seq![
        DtOp::Begin("codec@2030000"@),
        str_prop("compatible"@, "allwinner,sun20i-d1-codec"@),
        reg_prop(0x0203_0000u64, 0x1000u64),
        cell_prop("interrupts"@, 32),
        cell_prop("interrupt-parent"@, 100),
        str_prop("status"@, "okay"@),
        DtOp::End,
    ]
}

/// The D1 peripherals that are attached, where the map lists them.
pub open spec fn d1_ops(map: MemoryMap, a: AttachedDevices) -> Seq<DtOp> {
    if map.d1_peripherals {
        (if a.has_display { d1_display_ops() } else { seq![] })
            + (if a.has_mmc { d1_mmc_ops() } else { seq![] })
            + (if a.has_emac { d1_emac_ops() } else { seq![] })
            + (if a.has_touch { d1_touch_ops() } else { seq![] })
            + (if a.has_audio { d1_audio_ops() } else { seq![] })
    } else {
        seq![]
    }
}

/// The whole tree of a machine with `num_harts` harts and `memory_size`
/// bytes of DRAM: root, chosen, cpus, memory, and the soc bus with its
/// interrupt controllers, UART, VirtIO windows and D1 peripherals.
pub open spec fn tree_ops(map: MemoryMap, num_harts: nat, memory_size: u64, a: AttachedDevices) -> Seq<DtOp> {
    head_ops(map) + harts_ops(map.isa@, num_harts) + memory_ops(map, memory_size) + clint_ops(map, num_harts)
        + plic_ops(map, num_harts) + uart_ops(map) + virtio_ops(map, a) + d1_ops(map, a) + seq![DtOp::End, DtOp::End]
}

/// The blob of a builder's state fits the format's 32-bit size fields.
pub open spec fn blob_fits(v: DtbView) -> bool {
    56 + ((v.structure.len() + 4) as u32) + (v.strings.len() as u32) <= u32::MAX
}


/// Steps taken one sequence after another.
proof fn lemma_run_append(v: DtbView, a: Seq<DtOp>, b: Seq<DtOp>)
    ensures
        run(v, a + b) == run(run(v, a), b),
    decreases b.len(),
{
    reveal(run);
    if b.len() == 0 {
        assert(a + b =~= a);
    } else {
        lemma_run_append(v, a, b.drop_last());
        assert((a + b).drop_last() =~= a + b.drop_last());
        assert((a + b).last() == b.last());
    }
}

/// The interrupt cells of `intr_cells`.
fn interrupt_cells(num_harts: usize, a: u32, b: u32) -> (r: Vec<u32>)
    requires
        num_harts < 0x1000_0000,
    ensures
        r@ == intr_cells(num_harts as nat, a, b),
        r@.len() == 4 * num_harts,
{
    let mut cells: Vec<u32> = Vec::new();
    let mut h: usize = 0;
    while h < num_harts
        invariant
            h <= num_harts,
            num_harts < 0x1000_0000,
            cells@ == intr_cells(h as nat, a, b),
            cells@.len() == 4 * h,
        decreases num_harts - h,
    {
        cells.push((h + 1) as u32);
        cells.push(a);
        cells.push((h + 1) as u32);
        cells.push(b);
        proof {
            assert(cells@ =~= intr_cells((h + 1) as nat, a, b));
        }
        h = h + 1;
    }
    cells
}

/// Root properties, `chosen`, and the head of `cpus`.
fn emit_head(b: &mut DtbBuilder, map: &MemoryMap)
    requires
        old(b).wf(),
    ensures
        final(b).wf(),
        final(b)@ == run(old(b)@, head_ops(*map)),
{
    let ghost v0 = b@;
    let ghost mut ops: Seq<DtOp> = Seq::empty();
    proof {
        lemma_run_empty(v0);
    }
    b.begin_node("");
    proof {
        lemma_step_begin(run(v0, ops), ""@);
        lemma_run_push(v0, ops, DtOp::Begin(""@));
        ops = ops.push(DtOp::Begin(""@));
    }
    b.add_prop_u32("#address-cells", 2);
    proof {
        lemma_step_prop(run(v0, ops), "#address-cells"@, be32(2));
        lemma_run_push(v0, ops, cell_prop("#address-cells"@, 2));
        ops = ops.push(cell_prop("#address-cells"@, 2));
    }
    b.add_prop_u32("#size-cells", 2);
    proof {
        lemma_step_prop(run(v0, ops), "#size-cells"@, be32(2));
        lemma_run_push(v0, ops, cell_prop("#size-cells"@, 2));
        ops = ops.push(cell_prop("#size-cells"@, 2));
    }
    let mut compat: Vec<&str> = Vec::new();
    let mut j: usize = 0;
    while j < map.compatible.len()
        invariant
            j <= map.compatible@.len(),
            compat@.len() == j,
            forall|k: int| 0 <= k < j ==> compat@[k]@ == map.compatible@[k]@,
        decreases map.compatible@.len() - j,
    {
        compat.push(map.compatible[j].as_str());
        j = j + 1;
    }
    proof {
        assert(Seq::new(compat@.len(), |i: int| compat@[i]@) =~= compat_strs(*map));
    }
    b.add_prop_string_list("compatible", compat.as_slice());
    proof {
        lemma_step_prop(run(v0, ops), "compatible"@, cstrs(compat_strs(*map)));
        lemma_run_push(v0, ops, list_prop("compatible"@, compat_strs(*map)));
        ops = ops.push(list_prop("compatible"@, compat_strs(*map)));
    }
    b.add_prop_string("model", map.model.as_str());
    proof {
        lemma_step_prop(run(v0, ops), "model"@, cstr(map.model@));
        lemma_run_push(v0, ops, str_prop("model"@, map.model@));
        ops = ops.push(str_prop("model"@, map.model@));
    }
    b.begin_node("chosen");
    proof {
        lemma_step_begin(run(v0, ops), "chosen"@);
        lemma_run_push(v0, ops, DtOp::Begin("chosen"@));
        ops = ops.push(DtOp::Begin("chosen"@));
    }
    b.add_prop_string("bootargs", "earlycon=sbi console=ttyS0");
    proof {
        lemma_step_prop(run(v0, ops), "bootargs"@, cstr("earlycon=sbi console=ttyS0"@));
        lemma_run_push(v0, ops, str_prop("bootargs"@, "earlycon=sbi console=ttyS0"@));
        ops = ops.push(str_prop("bootargs"@, "earlycon=sbi console=ttyS0"@));
    }
    let stdout_path = numbered("/soc/serial@", map.uart.base, 16);
    b.add_prop_string("stdout-path", stdout_path.as_str());
    proof {
        lemma_step_prop(run(v0, ops), "stdout-path"@, cstr("/soc/serial@"@ + hex(map.uart.base)));
        lemma_run_push(v0, ops, str_prop("stdout-path"@, "/soc/serial@"@ + hex(map.uart.base)));
        ops = ops.push(str_prop("stdout-path"@, "/soc/serial@"@ + hex(map.uart.base)));
    }
    b.end_node();
    proof {
        lemma_step_end(run(v0, ops));
        lemma_run_push(v0, ops, DtOp::End);
        ops = ops.push(DtOp::End);
    }
    b.begin_node("cpus");
    proof {
        lemma_step_begin(run(v0, ops), "cpus"@);
        lemma_run_push(v0, ops, DtOp::Begin("cpus"@));
        ops = ops.push(DtOp::Begin("cpus"@));
    }
    b.add_prop_u32("#address-cells", 1);
    proof {
        lemma_step_prop(run(v0, ops), "#address-cells"@, be32(1));
        lemma_run_push(v0, ops, cell_prop("#address-cells"@, 1));
        ops = ops.push(cell_prop("#address-cells"@, 1));
    }
    b.add_prop_u32("#size-cells", 0);
    proof {
        lemma_step_prop(run(v0, ops), "#size-cells"@, be32(0));
        lemma_run_push(v0, ops, cell_prop("#size-cells"@, 0));
        ops = ops.push(cell_prop("#size-cells"@, 0));
    }
    b.add_prop_u32("timebase-frequency", map.timebase_hz);
    proof {
        lemma_step_prop(run(v0, ops), "timebase-frequency"@, be32(map.timebase_hz));
        lemma_run_push(v0, ops, cell_prop("timebase-frequency"@, map.timebase_hz));
        ops = ops.push(cell_prop("timebase-frequency"@, map.timebase_hz));
    }
    proof {
        reveal(head_ops);
        assert(ops =~= head_ops(*map));
    }
}

/// The node of hart `hart`.
fn emit_hart(b: &mut DtbBuilder, isa: &str, hart: usize)
    requires
        old(b).wf(),
        hart < usize::MAX,
    ensures
        final(b).wf(),
        final(b)@ == run(old(b)@, hart_ops(isa@, hart as nat)),
{
    let ghost v0 = b@;
    let ghost mut ops: Seq<DtOp> = Seq::empty();
    proof {
        lemma_run_empty(v0);
    }
    let name = numbered("cpu@", hart as u64, 10);
    b.begin_node(name.as_str());
    proof {
        lemma_step_begin(run(v0, ops), "cpu@"@ + radix_str(hart as nat, 10));
        lemma_run_push(v0, ops, DtOp::Begin("cpu@"@ + radix_str(hart as nat, 10)));
        ops = ops.push(DtOp::Begin("cpu@"@ + radix_str(hart as nat, 10)));
    }
    b.add_prop_string("device_type", "cpu");
    proof {
        lemma_step_prop(run(v0, ops), "device_type"@, cstr("cpu"@));
        lemma_run_push(v0, ops, str_prop("device_type"@, "cpu"@));
        ops = ops.push(str_prop("device_type"@, "cpu"@));
    }
    b.add_prop_u32("reg", hart as u32);
    proof {
        lemma_step_prop(run(v0, ops), "reg"@, be32(hart as u32));
        lemma_run_push(v0, ops, cell_prop("reg"@, hart as u32));
        ops = ops.push(cell_prop("reg"@, hart as u32));
    }
    b.add_prop_string("status", "okay");
    proof {
        lemma_step_prop(run(v0, ops), "status"@, cstr("okay"@));
        lemma_run_push(v0, ops, str_prop("status"@, "okay"@));
        ops = ops.push(str_prop("status"@, "okay"@));
    }
    b.add_prop_string("compatible", "riscv");
    proof {
        lemma_step_prop(run(v0, ops), "compatible"@, cstr("riscv"@));
        lemma_run_push(v0, ops, str_prop("compatible"@, "riscv"@));
        ops = ops.push(str_prop("compatible"@, "riscv"@));
    }
    b.add_prop_string("riscv,isa", isa);
    proof {
        lemma_step_prop(run(v0, ops), "riscv,isa"@, cstr(isa@));
        lemma_run_push(v0, ops, str_prop("riscv,isa"@, isa@));
        ops = ops.push(str_prop("riscv,isa"@, isa@));
    }
    b.add_prop_string("mmu-type", "riscv,sv39");
    proof {
        lemma_step_prop(run(v0, ops), "mmu-type"@, cstr("riscv,sv39"@));
        lemma_run_push(v0, ops, str_prop("mmu-type"@, "riscv,sv39"@));
        ops = ops.push(str_prop("mmu-type"@, "riscv,sv39"@));
    }
    b.begin_node("interrupt-controller");
    proof {
        lemma_step_begin(run(v0, ops), "interrupt-controller"@);
        lemma_run_push(v0, ops, DtOp::Begin("interrupt-controller"@));
        ops = ops.push(DtOp::Begin("interrupt-controller"@));
    }
    b.add_prop_u32("#interrupt-cells", 1);
    proof {
        lemma_step_prop(run(v0, ops), "#interrupt-cells"@, be32(1));
        lemma_run_push(v0, ops, cell_prop("#interrupt-cells"@, 1));
        ops = ops.push(cell_prop("#interrupt-cells"@, 1));
    }
    b.add_prop_empty("interrupt-controller");
    proof {
        lemma_step_prop(run(v0, ops), "interrupt-controller"@, Seq::<u8>::empty());
        lemma_run_push(v0, ops, flag_prop("interrupt-controller"@));
        ops = ops.push(flag_prop("interrupt-controller"@));
    }
    b.add_prop_string("compatible", "riscv,cpu-intc");
    proof {
        lemma_step_prop(run(v0, ops), "compatible"@, cstr("riscv,cpu-intc"@));
        lemma_run_push(v0, ops, str_prop("compatible"@, "riscv,cpu-intc"@));
        ops = ops.push(str_prop("compatible"@, "riscv,cpu-intc"@));
    }
    b.add_prop_u32("phandle", (hart + 1) as u32);
    proof {
        lemma_step_prop(run(v0, ops), "phandle"@, be32((hart + 1) as u32));
        lemma_run_push(v0, ops, cell_prop("phandle"@, (hart + 1) as u32));
        ops = ops.push(cell_prop("phandle"@, (hart + 1) as u32));
    }
    b.end_node();
    proof {
        lemma_step_end(run(v0, ops));
        lemma_run_push(v0, ops, DtOp::End);
        ops = ops.push(DtOp::End);
    }
    b.end_node();
    proof {
        lemma_step_end(run(v0, ops));
        lemma_run_push(v0, ops, DtOp::End);
        ops = ops.push(DtOp::End);
    }
    proof {
        reveal(hart_ops);
        assert(ops =~= hart_ops(isa@, hart as nat));
    }
}

/// End of `cpus`, the memory node, and the head of `soc`.
fn emit_memory(b: &mut DtbBuilder, map: &MemoryMap, memory_size: u64)
    requires
        old(b).wf(),
    ensures
        final(b).wf(),
        final(b)@ == run(old(b)@, memory_ops(*map, memory_size)),
{
    let ghost v0 = b@;
    let ghost mut ops: Seq<DtOp> = Seq::empty();
    proof {
        lemma_run_empty(v0);
    }
    let name = numbered("memory@", map.dram_base, 16);
    b.end_node();
    proof {
        lemma_step_end(run(v0, ops));
        lemma_run_push(v0, ops, DtOp::End);
        ops = ops.push(DtOp::End);
    }
    b.begin_node(name.as_str());
    proof {
        lemma_step_begin(run(v0, ops), "memory@"@ + hex(map.dram_base));
        lemma_run_push(v0, ops, DtOp::Begin("memory@"@ + hex(map.dram_base)));
        ops = ops.push(DtOp::Begin("memory@"@ + hex(map.dram_base)));
    }
    b.add_prop_string("device_type", "memory");
    proof {
        lemma_step_prop(run(v0, ops), "device_type"@, cstr("memory"@));
        lemma_run_push(v0, ops, str_prop("device_type"@, "memory"@));
        ops = ops.push(str_prop("device_type"@, "memory"@));
    }
    b.add_prop_reg64(map.dram_base, memory_size);
    proof {
        lemma_step_prop(run(v0, ops), "reg"@, be32s(seq![(map.dram_base >> 32u64) as u32, map.dram_base as u32, (memory_size >> 32u64) as u32, memory_size as u32]));
        lemma_run_push(v0, ops, reg_prop(map.dram_base, memory_size));
        ops = ops.push(reg_prop(map.dram_base, memory_size));
    }
    b.end_node();
    proof {
        lemma_step_end(run(v0, ops));
        lemma_run_push(v0, ops, DtOp::End);
        ops = ops.push(DtOp::End);
    }
    b.begin_node("soc");
    proof {
        lemma_step_begin(run(v0, ops), "soc"@);
        lemma_run_push(v0, ops, DtOp::Begin("soc"@));
        ops = ops.push(DtOp::Begin("soc"@));
    }
    b.add_prop_u32("#address-cells", 2);
    proof {
        lemma_step_prop(run(v0, ops), "#address-cells"@, be32(2));
        lemma_run_push(v0, ops, cell_prop("#address-cells"@, 2));
        ops = ops.push(cell_prop("#address-cells"@, 2));
    }
    b.add_prop_u32("#size-cells", 2);
    proof {
        lemma_step_prop(run(v0, ops), "#size-cells"@, be32(2));
        lemma_run_push(v0, ops, cell_prop("#size-cells"@, 2));
        ops = ops.push(cell_prop("#size-cells"@, 2));
    }
    b.add_prop_string("compatible", "simple-bus");
    proof {
        lemma_step_prop(run(v0, ops), "compatible"@, cstr("simple-bus"@));
        lemma_run_push(v0, ops, str_prop("compatible"@, "simple-bus"@));
        ops = ops.push(str_prop("compatible"@, "simple-bus"@));
    }
    b.add_prop_empty("ranges");
    proof {
        lemma_step_prop(run(v0, ops), "ranges"@, Seq::<u8>::empty());
        lemma_run_push(v0, ops, flag_prop("ranges"@));
        ops = ops.push(flag_prop("ranges"@));
    }
    proof {
        reveal(memory_ops);
        assert(ops =~= memory_ops(*map, memory_size));
    }
}

/// The CLINT node.
fn emit_clint(b: &mut DtbBuilder, map: &MemoryMap, c: DtWindow, num_harts: usize)
    requires
        old(b).wf(),
        map.clint == Some(c),
        num_harts < 0x1000_0000,
    ensures
        final(b).wf(),
        final(b)@ == run(old(b)@, clint_ops(*map, num_harts as nat)),
{
    let ghost v0 = b@;
    let ghost mut ops: Seq<DtOp> = Seq::empty();
    proof {
        lemma_run_empty(v0);
    }
    let name = numbered("clint@", c.base, 16);
    let cells = interrupt_cells(num_harts, 3, 7);
    b.begin_node(name.as_str());
    proof {
        lemma_step_begin(run(v0, ops), "clint@"@ + hex(c.base));
        lemma_run_push(v0, ops, DtOp::Begin("clint@"@ + hex(c.base)));
        ops = ops.push(DtOp::Begin("clint@"@ + hex(c.base)));
    }
    b.add_prop_string("compatible", "riscv,clint0");
    proof {
        lemma_step_prop(run(v0, ops), "compatible"@, cstr("riscv,clint0"@));
        lemma_run_push(v0, ops, str_prop("compatible"@, "riscv,clint0"@));
        ops = ops.push(str_prop("compatible"@, "riscv,clint0"@));
    }
    b.add_prop_reg64(c.base, c.size);
    proof {
        lemma_step_prop(run(v0, ops), "reg"@, be32s(seq![(c.base >> 32u64) as u32, c.base as u32, (c.size >> 32u64) as u32, c.size as u32]));
        lemma_run_push(v0, ops, reg_prop(c.base, c.size));
        ops = ops.push(reg_prop(c.base, c.size));
    }
    b.add_prop_u32_array("interrupts-extended", cells.as_slice());
    proof {
        lemma_step_prop(run(v0, ops), "interrupts-extended"@, be32s(intr_cells(num_harts as nat, 3, 7)));
        lemma_run_push(v0, ops, cells_prop("interrupts-extended"@, intr_cells(num_harts as nat, 3, 7)));
        ops = ops.push(cells_prop("interrupts-extended"@, intr_cells(num_harts as nat, 3, 7)));
    }
    b.end_node();
    proof {
        lemma_step_end(run(v0, ops));
        lemma_run_push(v0, ops, DtOp::End);
        ops = ops.push(DtOp::End);
    }
    proof {
        reveal(clint_ops);
        assert(ops =~= clint_ops(*map, num_harts as nat));
    }
}

/// The PLIC node.
fn emit_plic(b: &mut DtbBuilder, map: &MemoryMap, num_harts: usize)
    requires
        old(b).wf(),
        num_harts < 0x1000_0000,
    ensures
        final(b).wf(),
        final(b)@ == run(old(b)@, plic_ops(*map, num_harts as nat)),
{
    let ghost v0 = b@;
    let ghost mut ops: Seq<DtOp> = Seq::empty();
    proof {
        lemma_run_empty(v0);
    }
    let name = numbered("interrupt-controller@", map.plic.base, 16);
    let cells = interrupt_cells(num_harts, 9, 11);
    b.begin_node(name.as_str());
    proof {
        lemma_step_begin(run(v0, ops), "interrupt-controller@"@ + hex(map.plic.base));
        lemma_run_push(v0, ops, DtOp::Begin("interrupt-controller@"@ + hex(map.plic.base)));
        ops = ops.push(DtOp::Begin("interrupt-controller@"@ + hex(map.plic.base)));
    }
    b.add_prop_string("compatible", map.plic.compatible.as_str());
    proof {
        lemma_step_prop(run(v0, ops), "compatible"@, cstr(map.plic.compatible@));
        lemma_run_push(v0, ops, str_prop("compatible"@, map.plic.compatible@));
        ops = ops.push(str_prop("compatible"@, map.plic.compatible@));
    }
    b.add_prop_u32("#interrupt-cells", 1);
    proof {
        lemma_step_prop(run(v0, ops), "#interrupt-cells"@, be32(1));
        lemma_run_push(v0, ops, cell_prop("#interrupt-cells"@, 1));
        ops = ops.push(cell_prop("#interrupt-cells"@, 1));
    }
    b.add_prop_empty("interrupt-controller");
    proof {
        lemma_step_prop(run(v0, ops), "interrupt-controller"@, Seq::<u8>::empty());
        lemma_run_push(v0, ops, flag_prop("interrupt-controller"@));
        ops = ops.push(flag_prop("interrupt-controller"@));
    }
    b.add_prop_reg64(map.plic.base, map.plic.dtb_size);
    proof {
        lemma_step_prop(run(v0, ops), "reg"@, be32s(seq![(map.plic.base >> 32u64) as u32, map.plic.base as u32, (map.plic.dtb_size >> 32u64) as u32, map.plic.dtb_size as u32]));
        lemma_run_push(v0, ops, reg_prop(map.plic.base, map.plic.dtb_size));
        ops = ops.push(reg_prop(map.plic.base, map.plic.dtb_size));
    }
    b.add_prop_u32("riscv,ndev", map.plic.ndev);
    proof {
        lemma_step_prop(run(v0, ops), "riscv,ndev"@, be32(map.plic.ndev));
        lemma_run_push(v0, ops, cell_prop("riscv,ndev"@, map.plic.ndev));
        ops = ops.push(cell_prop("riscv,ndev"@, map.plic.ndev));
    }
    b.add_prop_u32("phandle", 100);
    proof {
        lemma_step_prop(run(v0, ops), "phandle"@, be32(100));
        lemma_run_push(v0, ops, cell_prop("phandle"@, 100));
        ops = ops.push(cell_prop("phandle"@, 100));
    }
    b.add_prop_u32_array("interrupts-extended", cells.as_slice());
    proof {
        lemma_step_prop(run(v0, ops), "interrupts-extended"@, be32s(intr_cells(num_harts as nat, 9, 11)));
        lemma_run_push(v0, ops, cells_prop("interrupts-extended"@, intr_cells(num_harts as nat, 9, 11)));
        ops = ops.push(cells_prop("interrupts-extended"@, intr_cells(num_harts as nat, 9, 11)));
    }
    b.end_node();
    proof {
        lemma_step_end(run(v0, ops));
        lemma_run_push(v0, ops, DtOp::End);
        ops = ops.push(DtOp::End);
    }
    proof {
        reveal(plic_ops);
        assert(ops =~= plic_ops(*map, num_harts as nat));
    }
}

/// The UART node.
fn emit_uart(b: &mut DtbBuilder, map: &MemoryMap)
    requires
        old(b).wf(),
    ensures
        final(b).wf(),
        final(b)@ == run(old(b)@, uart_ops(*map)),
{
    let ghost v0 = b@;
    let ghost mut ops: Seq<DtOp> = Seq::empty();
    proof {
        lemma_run_empty(v0);
    }
    let name = numbered("serial@", map.uart.base, 16);
    b.begin_node(name.as_str());
    proof {
        lemma_step_begin(run(v0, ops), "serial@"@ + hex(map.uart.base));
        lemma_run_push(v0, ops, DtOp::Begin("serial@"@ + hex(map.uart.base)));
        ops = ops.push(DtOp::Begin("serial@"@ + hex(map.uart.base)));
    }
    b.add_prop_string("compatible", map.uart.compatible.as_str());
    proof {
        lemma_step_prop(run(v0, ops), "compatible"@, cstr(map.uart.compatible@));
        lemma_run_push(v0, ops, str_prop("compatible"@, map.uart.compatible@));
        ops = ops.push(str_prop("compatible"@, map.uart.compatible@));
    }
    b.add_prop_reg64(map.uart.base, map.uart.size);
    proof {
        lemma_step_prop(run(v0, ops), "reg"@, be32s(seq![(map.uart.base >> 32u64) as u32, map.uart.base as u32, (map.uart.size >> 32u64) as u32, map.uart.size as u32]));
        lemma_run_push(v0, ops, reg_prop(map.uart.base, map.uart.size));
        ops = ops.push(reg_prop(map.uart.base, map.uart.size));
    }
    b.add_prop_u32("clock-frequency", 3686400);
    proof {
        lemma_step_prop(run(v0, ops), "clock-frequency"@, be32(3686400));
        lemma_run_push(v0, ops, cell_prop("clock-frequency"@, 3686400));
        ops = ops.push(cell_prop("clock-frequency"@, 3686400));
    }
    b.add_prop_u32("interrupts", map.uart.irq);
    proof {
        lemma_step_prop(run(v0, ops), "interrupts"@, be32(map.uart.irq));
        lemma_run_push(v0, ops, cell_prop("interrupts"@, map.uart.irq));
        ops = ops.push(cell_prop("interrupts"@, map.uart.irq));
    }
    b.add_prop_u32("interrupt-parent", 100);
    proof {
        lemma_step_prop(run(v0, ops), "interrupt-parent"@, be32(100));
        lemma_run_push(v0, ops, cell_prop("interrupt-parent"@, 100));
        ops = ops.push(cell_prop("interrupt-parent"@, 100));
    }
    b.end_node();
    proof {
        lemma_step_end(run(v0, ops));
        lemma_run_push(v0, ops, DtOp::End);
        ops = ops.push(DtOp::End);
    }
    proof {
        reveal(uart_ops);
        assert(ops =~= uart_ops(*map));
    }
}

/// The node of VirtIO window `i`, at `addr`.
fn emit_virtio_slot(b: &mut DtbBuilder, v: DtVirtio, i: u64, addr: u64)
    requires
        old(b).wf(),
        addr == v.base + i * v.stride,
        i < u64::MAX,
    ensures
        final(b).wf(),
        final(b)@ == run(old(b)@, virtio_slot_ops(v, i as nat)),
{
    let ghost v0 = b@;
    let ghost mut ops: Seq<DtOp> = Seq::empty();
    proof {
        lemma_run_empty(v0);
    }
    let name = numbered("virtio@", addr, 16);
    b.begin_node(name.as_str());
    proof {
        lemma_step_begin(run(v0, ops), "virtio@"@ + hex(addr));
        lemma_run_push(v0, ops, DtOp::Begin("virtio@"@ + hex(addr)));
        ops = ops.push(DtOp::Begin("virtio@"@ + hex(addr)));
    }
    b.add_prop_string("compatible", "virtio,mmio");
    proof {
        lemma_step_prop(run(v0, ops), "compatible"@, cstr("virtio,mmio"@));
        lemma_run_push(v0, ops, str_prop("compatible"@, "virtio,mmio"@));
        ops = ops.push(str_prop("compatible"@, "virtio,mmio"@));
    }
    b.add_prop_reg64(addr, v.stride);
    proof {
        lemma_step_prop(run(v0, ops), "reg"@, be32s(seq![(addr >> 32u64) as u32, addr as u32, (v.stride >> 32u64) as u32, v.stride as u32]));
        lemma_run_push(v0, ops, reg_prop(addr, v.stride));
        ops = ops.push(reg_prop(addr, v.stride));
    }
    b.add_prop_u32("interrupts", (1 + i) as u32);
    proof {
        lemma_step_prop(run(v0, ops), "interrupts"@, be32((1 + i) as u32));
        lemma_run_push(v0, ops, cell_prop("interrupts"@, (1 + i) as u32));
        ops = ops.push(cell_prop("interrupts"@, (1 + i) as u32));
    }
    b.add_prop_u32("interrupt-parent", 100);
    proof {
        lemma_step_prop(run(v0, ops), "interrupt-parent"@, be32(100));
        lemma_run_push(v0, ops, cell_prop("interrupt-parent"@, 100));
        ops = ops.push(cell_prop("interrupt-parent"@, 100));
    }
    b.end_node();
    proof {
        lemma_step_end(run(v0, ops));
        lemma_run_push(v0, ops, DtOp::End);
        ops = ops.push(DtOp::End);
    }
    proof {
        reveal(virtio_slot_ops);
        assert(ops =~= virtio_slot_ops(v, i as nat));
    }
}

/// The D1 display nodes.
fn emit_d1_display(b: &mut DtbBuilder)
    requires
        old(b).wf(),
    ensures
        final(b).wf(),
        final(b)@ == run(old(b)@, d1_display_ops()),
{
    let ghost v0 = b@;
    let ghost mut ops: Seq<DtOp> = Seq::empty();
    proof {
        lemma_run_empty(v0);
    }
    b.begin_node("display-engine@5100000");
    proof {
        lemma_step_begin(run(v0, ops), "display-engine@5100000"@);
        lemma_run_push(v0, ops, DtOp::Begin("display-engine@5100000"@));
        ops = ops.push(DtOp::Begin("display-engine@5100000"@));
    }
    b.add_prop_string("compatible", "allwinner,sun20i-d1-de2");
    proof {
        lemma_step_prop(run(v0, ops), "compatible"@, cstr("allwinner,sun20i-d1-de2"@));
        lemma_run_push(v0, ops, str_prop("compatible"@, "allwinner,sun20i-d1-de2"@));
        ops = ops.push(str_prop("compatible"@, "allwinner,sun20i-d1-de2"@));
    }
    b.add_prop_reg64(0x0510_0000u64, 0x10000u64);
    proof {
        lemma_step_prop(run(v0, ops), "reg"@, be32s(seq![(0x0510_0000u64 >> 32u64) as u32, 0x0510_0000u64 as u32, (0x10000u64 >> 32u64) as u32, 0x10000u64 as u32]));
        lemma_run_push(v0, ops, reg_prop(0x0510_0000u64, 0x10000u64));
        ops = ops.push(reg_prop(0x0510_0000u64, 0x10000u64));
    }
    b.add_prop_u32("interrupts", 42);
    proof {
        lemma_step_prop(run(v0, ops), "interrupts"@, be32(42));
        lemma_run_push(v0, ops, cell_prop("interrupts"@, 42));
        ops = ops.push(cell_prop("interrupts"@, 42));
    }
    b.add_prop_u32("interrupt-parent", 100);
    proof {
        lemma_step_prop(run(v0, ops), "interrupt-parent"@, be32(100));
        lemma_run_push(v0, ops, cell_prop("interrupt-parent"@, 100));
        ops = ops.push(cell_prop("interrupt-parent"@, 100));
    }
    b.add_prop_string("status", "okay");
    proof {
        lemma_step_prop(run(v0, ops), "status"@, cstr("okay"@));
        lemma_run_push(v0, ops, str_prop("status"@, "okay"@));
        ops = ops.push(str_prop("status"@, "okay"@));
    }
    b.end_node();
    proof {
        lemma_step_end(run(v0, ops));
        lemma_run_push(v0, ops, DtOp::End);
        ops = ops.push(DtOp::End);
    }
    b.begin_node("lcd-controller@5461000");
    proof {
        lemma_step_begin(run(v0, ops), "lcd-controller@5461000"@);
        lemma_run_push(v0, ops, DtOp::Begin("lcd-controller@5461000"@));
        ops = ops.push(DtOp::Begin("lcd-controller@5461000"@));
    }
    b.add_prop_string("compatible", "allwinner,sun20i-d1-tcon-lcd");
    proof {
        lemma_step_prop(run(v0, ops), "compatible"@, cstr("allwinner,sun20i-d1-tcon-lcd"@));
        lemma_run_push(v0, ops, str_prop("compatible"@, "allwinner,sun20i-d1-tcon-lcd"@));
        ops = ops.push(str_prop("compatible"@, "allwinner,sun20i-d1-tcon-lcd"@));
    }
    b.add_prop_reg64(0x0546_1000u64, 0x1000u64);
    proof {
        lemma_step_prop(run(v0, ops), "reg"@, be32s(seq![(0x0546_1000u64 >> 32u64) as u32, 0x0546_1000u64 as u32, (0x1000u64 >> 32u64) as u32, 0x1000u64 as u32]));
        lemma_run_push(v0, ops, reg_prop(0x0546_1000u64, 0x1000u64));
        ops = ops.push(reg_prop(0x0546_1000u64, 0x1000u64));
    }
    b.add_prop_u32("interrupts", 106);
    proof {
        lemma_step_prop(run(v0, ops), "interrupts"@, be32(106));
        lemma_run_push(v0, ops, cell_prop("interrupts"@, 106));
        ops = ops.push(cell_prop("interrupts"@, 106));
    }
    b.add_prop_u32("interrupt-parent", 100);
    proof {
        lemma_step_prop(run(v0, ops), "interrupt-parent"@, be32(100));
        lemma_run_push(v0, ops, cell_prop("interrupt-parent"@, 100));
        ops = ops.push(cell_prop("interrupt-parent"@, 100));
    }
    b.add_prop_string("status", "okay");
    proof {
        lemma_step_prop(run(v0, ops), "status"@, cstr("okay"@));
        lemma_run_push(v0, ops, str_prop("status"@, "okay"@));
        ops = ops.push(str_prop("status"@, "okay"@));
    }
    b.end_node();
    proof {
        lemma_step_end(run(v0, ops));
        lemma_run_push(v0, ops, DtOp::End);
        ops = ops.push(DtOp::End);
    }
    proof {
        reveal(d1_display_ops);
        assert(ops =~= d1_display_ops());
    }
}

/// The D1 mmc nodes.
fn emit_d1_mmc(b: &mut DtbBuilder)
    requires
        old(b).wf(),
    ensures
        final(b).wf(),
        final(b)@ == run(old(b)@, d1_mmc_ops()),
{
    let ghost v0 = b@;
    let ghost mut ops: Seq<DtOp> = Seq::empty();
    proof {
        lemma_run_empty(v0);
    }
    b.begin_node("mmc@4020000");
    proof {
        lemma_step_begin(run(v0, ops), "mmc@4020000"@);
        lemma_run_push(v0, ops, DtOp::Begin("mmc@4020000"@));
        ops = ops.push(DtOp::Begin("mmc@4020000"@));
    }
    b.add_prop_string("compatible", "allwinner,sun20i-d1-mmc");
    proof {
        lemma_step_prop(run(v0, ops), "compatible"@, cstr("allwinner,sun20i-d1-mmc"@));
        lemma_run_push(v0, ops, str_prop("compatible"@, "allwinner,sun20i-d1-mmc"@));
        ops = ops.push(str_prop("compatible"@, "allwinner,sun20i-d1-mmc"@));
    }
    b.add_prop_reg64(0x0402_0000u64, 0x1000u64);
    proof {
        lemma_step_prop(run(v0, ops), "reg"@, be32s(seq![(0x0402_0000u64 >> 32u64) as u32, 0x0402_0000u64 as u32, (0x1000u64 >> 32u64) as u32, 0x1000u64 as u32]));
        lemma_run_push(v0, ops, reg_prop(0x0402_0000u64, 0x1000u64));
        ops = ops.push(reg_prop(0x0402_0000u64, 0x1000u64));
    }
    b.add_prop_u32("interrupts", 56);
    proof {
        lemma_step_prop(run(v0, ops), "interrupts"@, be32(56));
        lemma_run_push(v0, ops, cell_prop("interrupts"@, 56));
        ops = ops.push(cell_prop("interrupts"@, 56));
    }
    b.add_prop_u32("interrupt-parent", 100);
    proof {
        lemma_step_prop(run(v0, ops), "interrupt-parent"@, be32(100));
        lemma_run_push(v0, ops, cell_prop("interrupt-parent"@, 100));
        ops = ops.push(cell_prop("interrupt-parent"@, 100));
    }
    b.add_prop_string("status", "okay");
    proof {
        lemma_step_prop(run(v0, ops), "status"@, cstr("okay"@));
        lemma_run_push(v0, ops, str_prop("status"@, "okay"@));
        ops = ops.push(str_prop("status"@, "okay"@));
    }
    b.end_node();
    proof {
        lemma_step_end(run(v0, ops));
        lemma_run_push(v0, ops, DtOp::End);
        ops = ops.push(DtOp::End);
    }
    proof {
        reveal(d1_mmc_ops);
        assert(ops =~= d1_mmc_ops());
    }
}

/// The D1 emac nodes.
fn emit_d1_emac(b: &mut DtbBuilder)
    requires
        old(b).wf(),
    ensures
        final(b).wf(),
        final(b)@ == run(old(b)@, d1_emac_ops()),
{
    let ghost v0 = b@;
    let ghost mut ops: Seq<DtOp> = Seq::empty();
    proof {
        lemma_run_empty(v0);
    }
    b.begin_node("ethernet@4500000");
    proof {
        lemma_step_begin(run(v0, ops), "ethernet@4500000"@);
        lemma_run_push(v0, ops, DtOp::Begin("ethernet@4500000"@));
        ops = ops.push(DtOp::Begin("ethernet@4500000"@));
    }
    b.add_prop_string("compatible", "allwinner,sun20i-d1-emac");
    proof {
        lemma_step_prop(run(v0, ops), "compatible"@, cstr("allwinner,sun20i-d1-emac"@));
        lemma_run_push(v0, ops, str_prop("compatible"@, "allwinner,sun20i-d1-emac"@));
        ops = ops.push(str_prop("compatible"@, "allwinner,sun20i-d1-emac"@));
    }
    b.add_prop_reg64(0x0450_0000u64, 0x1000u64);
    proof {
        lemma_step_prop(run(v0, ops), "reg"@, be32s(seq![(0x0450_0000u64 >> 32u64) as u32, 0x0450_0000u64 as u32, (0x1000u64 >> 32u64) as u32, 0x1000u64 as u32]));
        lemma_run_push(v0, ops, reg_prop(0x0450_0000u64, 0x1000u64));
        ops = ops.push(reg_prop(0x0450_0000u64, 0x1000u64));
    }
    b.add_prop_u32("interrupts", 62);
    proof {
        lemma_step_prop(run(v0, ops), "interrupts"@, be32(62));
        lemma_run_push(v0, ops, cell_prop("interrupts"@, 62));
        ops = ops.push(cell_prop("interrupts"@, 62));
    }
    b.add_prop_u32("interrupt-parent", 100);
    proof {
        lemma_step_prop(run(v0, ops), "interrupt-parent"@, be32(100));
        lemma_run_push(v0, ops, cell_prop("interrupt-parent"@, 100));
        ops = ops.push(cell_prop("interrupt-parent"@, 100));
    }
    b.add_prop_string("status", "okay");
    proof {
        lemma_step_prop(run(v0, ops), "status"@, cstr("okay"@));
        lemma_run_push(v0, ops, str_prop("status"@, "okay"@));
        ops = ops.push(str_prop("status"@, "okay"@));
    }
    b.end_node();
    proof {
        lemma_step_end(run(v0, ops));
        lemma_run_push(v0, ops, DtOp::End);
        ops = ops.push(DtOp::End);
    }
    proof {
        reveal(d1_emac_ops);
        assert(ops =~= d1_emac_ops());
    }
}

/// The D1 touch nodes.
fn emit_d1_touch(b: &mut DtbBuilder)
    requires
        old(b).wf(),
    ensures
        final(b).wf(),
        final(b)@ == run(old(b)@, d1_touch_ops()),
{
    let ghost v0 = b@;
    let ghost mut ops: Seq<DtOp> = Seq::empty();
    proof {
        lemma_run_empty(v0);
    }
    b.begin_node("i2c@2502000");
    proof {
        lemma_step_begin(run(v0, ops), "i2c@2502000"@);
        lemma_run_push(v0, ops, DtOp::Begin("i2c@2502000"@));
        ops = ops.push(DtOp::Begin("i2c@2502000"@));
    }
    b.add_prop_string("compatible", "allwinner,sun20i-d1-i2c");
    proof {
        lemma_step_prop(run(v0, ops), "compatible"@, cstr("allwinner,sun20i-d1-i2c"@));
        lemma_run_push(v0, ops, str_prop("compatible"@, "allwinner,sun20i-d1-i2c"@));
        ops = ops.push(str_prop("compatible"@, "allwinner,sun20i-d1-i2c"@));
    }
    b.add_prop_reg64(0x0250_2000u64, 0x400u64);
    proof {
        lemma_step_prop(run(v0, ops), "reg"@, be32s(seq![(0x0250_2000u64 >> 32u64) as u32, 0x0250_2000u64 as u32, (0x400u64 >> 32u64) as u32, 0x400u64 as u32]));
        lemma_run_push(v0, ops, reg_prop(0x0250_2000u64, 0x400u64));
        ops = ops.push(reg_prop(0x0250_2000u64, 0x400u64));
    }
    b.add_prop_u32("#address-cells", 1);
    proof {
        lemma_step_prop(run(v0, ops), "#address-cells"@, be32(1));
        lemma_run_push(v0, ops, cell_prop("#address-cells"@, 1));
        ops = ops.push(cell_prop("#address-cells"@, 1));
    }
    b.add_prop_u32("#size-cells", 0);
    proof {
        lemma_step_prop(run(v0, ops), "#size-cells"@, be32(0));
        lemma_run_push(v0, ops, cell_prop("#size-cells"@, 0));
        ops = ops.push(cell_prop("#size-cells"@, 0));
    }
    b.add_prop_u32("interrupts", 25);
    proof {
        lemma_step_prop(run(v0, ops), "interrupts"@, be32(25));
        lemma_run_push(v0, ops, cell_prop("interrupts"@, 25));
        ops = ops.push(cell_prop("interrupts"@, 25));
    }
    b.add_prop_u32("interrupt-parent", 100);
    proof {
        lemma_step_prop(run(v0, ops), "interrupt-parent"@, be32(100));
        lemma_run_push(v0, ops, cell_prop("interrupt-parent"@, 100));
        ops = ops.push(cell_prop("interrupt-parent"@, 100));
    }
    b.add_prop_string("status", "okay");
    proof {
        lemma_step_prop(run(v0, ops), "status"@, cstr("okay"@));
        lemma_run_push(v0, ops, str_prop("status"@, "okay"@));
        ops = ops.push(str_prop("status"@, "okay"@));
    }
    b.begin_node("touchscreen@14");
    proof {
        lemma_step_begin(run(v0, ops), "touchscreen@14"@);
        lemma_run_push(v0, ops, DtOp::Begin("touchscreen@14"@));
        ops = ops.push(DtOp::Begin("touchscreen@14"@));
    }
    b.add_prop_string("compatible", "goodix,gt911");
    proof {
        lemma_step_prop(run(v0, ops), "compatible"@, cstr("goodix,gt911"@));
        lemma_run_push(v0, ops, str_prop("compatible"@, "goodix,gt911"@));
        ops = ops.push(str_prop("compatible"@, "goodix,gt911"@));
    }
    b.add_prop_u32("reg", 0x14);
    proof {
        lemma_step_prop(run(v0, ops), "reg"@, be32(0x14));
        lemma_run_push(v0, ops, cell_prop("reg"@, 0x14));
        ops = ops.push(cell_prop("reg"@, 0x14));
    }
    b.add_prop_u32("interrupts", 35);
    proof {
        lemma_step_prop(run(v0, ops), "interrupts"@, be32(35));
        lemma_run_push(v0, ops, cell_prop("interrupts"@, 35));
        ops = ops.push(cell_prop("interrupts"@, 35));
    }
    b.add_prop_u32("interrupt-parent", 100);
    proof {
        lemma_step_prop(run(v0, ops), "interrupt-parent"@, be32(100));
        lemma_run_push(v0, ops, cell_prop("interrupt-parent"@, 100));
        ops = ops.push(cell_prop("interrupt-parent"@, 100));
    }
    b.add_prop_string("status", "okay");
    proof {
        lemma_step_prop(run(v0, ops), "status"@, cstr("okay"@));
        lemma_run_push(v0, ops, str_prop("status"@, "okay"@));
        ops = ops.push(str_prop("status"@, "okay"@));
    }
    b.end_node();
    proof {
        lemma_step_end(run(v0, ops));
        lemma_run_push(v0, ops, DtOp::End);
        ops = ops.push(DtOp::End);
    }
    b.end_node();
    proof {
        lemma_step_end(run(v0, ops));
        lemma_run_push(v0, ops, DtOp::End);
        ops = ops.push(DtOp::End);
    }
    proof {
        reveal(d1_touch_ops);
        assert(ops =~= d1_touch_ops());
    }
}

/// The D1 audio nodes.
fn emit_d1_audio(b: &mut DtbBuilder)
    requires
        old(b).wf(),
    ensures
        final(b).wf(),
        final(b)@ == run(old(b)@, d1_audio_ops()),
{
    let ghost v0 = b@;
    let ghost mut ops: Seq<DtOp> = Seq::empty();
    proof {
        lemma_run_empty(v0);
    }
    b.begin_node("codec@2030000");
    proof {
        lemma_step_begin(run(v0, ops), "codec@2030000"@);
        lemma_run_push(v0, ops, DtOp::Begin("codec@2030000"@));
        ops = ops.push(DtOp::Begin("codec@2030000"@));
    }
    b.add_prop_string("compatible", "allwinner,sun20i-d1-codec");
    proof {
        lemma_step_prop(run(v0, ops), "compatible"@, cstr("allwinner,sun20i-d1-codec"@));
        lemma_run_push(v0, ops, str_prop("compatible"@, "allwinner,sun20i-d1-codec"@));
        ops = ops.push(str_prop("compatible"@, "allwinner,sun20i-d1-codec"@));
    }
    b.add_prop_reg64(0x0203_0000u64, 0x1000u64);
    proof {
        lemma_step_prop(run(v0, ops), "reg"@, be32s(seq![(0x0203_0000u64 >> 32u64) as u32, 0x0203_0000u64 as u32, (0x1000u64 >> 32u64) as u32, 0x1000u64 as u32]));
        lemma_run_push(v0, ops, reg_prop(0x0203_0000u64, 0x1000u64));
        ops = ops.push(reg_prop(0x0203_0000u64, 0x1000u64));
    }
    b.add_prop_u32("interrupts", 32);
    proof {
        lemma_step_prop(run(v0, ops), "interrupts"@, be32(32));
        lemma_run_push(v0, ops, cell_prop("interrupts"@, 32));
        ops = ops.push(cell_prop("interrupts"@, 32));
    }
    b.add_prop_u32("interrupt-parent", 100);
    proof {
        lemma_step_prop(run(v0, ops), "interrupt-parent"@, be32(100));
        lemma_run_push(v0, ops, cell_prop("interrupt-parent"@, 100));
        ops = ops.push(cell_prop("interrupt-parent"@, 100));
    }
    b.add_prop_string("status", "okay");
    proof {
        lemma_step_prop(run(v0, ops), "status"@, cstr("okay"@));
        lemma_run_push(v0, ops, str_prop("status"@, "okay"@));
        ops = ops.push(str_prop("status"@, "okay"@));
    }
    b.end_node();
    proof {
        lemma_step_end(run(v0, ops));
        lemma_run_push(v0, ops, DtOp::End);
        ops = ops.push(DtOp::End);
    }
    proof {
        reveal(d1_audio_ops);
        assert(ops =~= d1_audio_ops());
    }
}

/// The VirtIO nodes.
fn emit_virtio(b: &mut DtbBuilder, map: &MemoryMap, attached: &AttachedDevices)
    requires
        old(b).wf(),
        map.virtio matches Some(v) ==> v.base + virtio_nodes(*map, *attached) * v.stride <= u64::MAX,
    ensures
        final(b).wf(),
        final(b)@ == run(old(b)@, virtio_ops(*map, *attached)),
{
    let ghost e = b@;
    let ghost mut ops: Seq<DtOp> = Seq::empty();
    proof {
        lemma_run_empty(e);
    }
    let ghost serial = ops;
    if let Some(v) = map.virtio {
        let n = if attached.virtio_count < v.max_slots { attached.virtio_count } else { v.max_slots };
        let mut i: u64 = 0;
        while i < n as u64
            invariant
                i <= n,
                n == virtio_nodes(*map, *attached),
                map.virtio == Some(v),
                v.base + n * v.stride <= u64::MAX,
                b.wf(),
                b@ == run(e, ops),
                ops == serial + virtio_slots_ops(v, i as nat),
            decreases n - i,
        {
            proof {
                assert(i * v.stride <= n * v.stride) by (nonlinear_arith)
                    requires
                        i < n,
                ;
            }
            let addr = v.base + i * v.stride;
            emit_virtio_slot(b, v, i, addr);
            proof {
                lemma_run_append(e, ops, virtio_slot_ops(v, i as nat));
                ops = ops + virtio_slot_ops(v, i as nat);
                assert(ops =~= serial + virtio_slots_ops(v, (i + 1) as nat));
            }
            i = i + 1;
        }
    }
    proof {
        assert(ops =~= virtio_ops(*map, *attached));
    }
}

/// The D1 peripheral nodes.
fn emit_d1(b: &mut DtbBuilder, map: &MemoryMap, attached: &AttachedDevices)
    requires
        old(b).wf(),
    ensures
        final(b).wf(),
        final(b)@ == run(old(b)@, d1_ops(*map, *attached)),
{
    let ghost e = b@;
    let ghost mut ops: Seq<DtOp> = Seq::empty();
    proof {
        lemma_run_empty(e);
    }
    if map.d1_peripherals {
        if attached.has_display {
            emit_d1_display(b);
            proof {
                lemma_run_append(e, ops, d1_display_ops());
                ops = ops + d1_display_ops();
            }
        }
        if attached.has_mmc {
            emit_d1_mmc(b);
            proof {
                lemma_run_append(e, ops, d1_mmc_ops());
                ops = ops + d1_mmc_ops();
            }
        }
        if attached.has_emac {
            emit_d1_emac(b);
            proof {
                lemma_run_append(e, ops, d1_emac_ops());
                ops = ops + d1_emac_ops();
            }
        }
        if attached.has_touch {
            emit_d1_touch(b);
            proof {
                lemma_run_append(e, ops, d1_touch_ops());
                ops = ops + d1_touch_ops();
            }
        }
        if attached.has_audio {
            emit_d1_audio(b);
            proof {
                lemma_run_append(e, ops, d1_audio_ops());
                ops = ops + d1_audio_ops();
            }
        }
    }
    proof {
        assert(ops =~= d1_ops(*map, *attached));
    }
}

/// The flattened device tree of a machine with memory map `map`,
/// `num_harts` harts, `memory_size` bytes of DRAM and the `attached`
/// devices. Only devices that are present are listed, and the D1
/// peripherals only on a map that has them.
pub fn generate_for(map: &MemoryMap, num_harts: usize, memory_size: u64, attached: &AttachedDevices) -> (r: Vec<u8>)
    requires
        num_harts < 0x1000_0000,
        map.virtio matches Some(v) ==> v.base + virtio_nodes(*map, *attached) * v.stride <= u64::MAX,
        blob_fits(run(empty_dtb(), tree_ops(*map, num_harts as nat, memory_size, *attached))),
    ensures
        r@ == fdt_blob(run(empty_dtb(), tree_ops(*map, num_harts as nat, memory_size, *attached))),
{
    let mut b = DtbBuilder::new();
    let ghost e = empty_dtb();
    emit_head(&mut b, map);
    let ghost mut ops: Seq<DtOp> = head_ops(*map);
    let ghost head = ops;
    let mut hart: usize = 0;
    while hart < num_harts
        invariant
            hart <= num_harts,
            num_harts < 0x1000_0000,
            e == empty_dtb(),
            b.wf(),
            b@ == run(e, ops),
            ops == head + harts_ops(map.isa@, hart as nat),
        decreases num_harts - hart,
    {
        emit_hart(&mut b, map.isa.as_str(), hart);
        proof {
            lemma_run_append(e, ops, hart_ops(map.isa@, hart as nat));
            ops = ops + hart_ops(map.isa@, hart as nat);
            assert(ops =~= head + harts_ops(map.isa@, (hart + 1) as nat));
        }
        hart = hart + 1;
    }
    emit_memory(&mut b, map, memory_size);
    proof {
        lemma_run_append(e, ops, memory_ops(*map, memory_size));
        ops = ops + memory_ops(*map, memory_size);
    }
    if let Some(c) = map.clint {
        emit_clint(&mut b, map, c, num_harts);
    }
    proof {
        lemma_run_append(e, ops, clint_ops(*map, num_harts as nat));
        if map.clint is None {
            reveal(clint_ops);
            assert(ops + clint_ops(*map, num_harts as nat) =~= ops);
        }
        ops = ops + clint_ops(*map, num_harts as nat);
    }
    emit_plic(&mut b, map, num_harts);
    proof {
        lemma_run_append(e, ops, plic_ops(*map, num_harts as nat));
        ops = ops + plic_ops(*map, num_harts as nat);
    }
    emit_uart(&mut b, map);
    proof {
        lemma_run_append(e, ops, uart_ops(*map));
        ops = ops + uart_ops(*map);
    }
    emit_virtio(&mut b, map, attached);
    proof {
        lemma_run_append(e, ops, virtio_ops(*map, *attached));
        ops = ops + virtio_ops(*map, *attached);
    }
    emit_d1(&mut b, map, attached);
    proof {
        lemma_run_append(e, ops, d1_ops(*map, *attached));
        ops = ops + d1_ops(*map, *attached);
    }
    b.end_node();
    proof {
        lemma_step_end(run(e, ops));
        lemma_run_push(e, ops, DtOp::End);
    }
    b.end_node();
    proof {
        lemma_step_end(run(e, ops.push(DtOp::End)));
        lemma_run_push(e, ops, DtOp::End);
        lemma_run_push(e, ops.push(DtOp::End), DtOp::End);
        assert(ops.push(DtOp::End).push(DtOp::End) =~= tree_ops(*map, num_harts as nat, memory_size, *attached));
    }
    b.finish()
}

proof fn lemma_virtio_slots_len(v: DtVirtio, k: nat)
    ensures
        virtio_slots_ops(v, k).len() == 6 * k,
    decreases k,
{
    if k > 0 {
        reveal(virtio_slot_ops);
        lemma_virtio_slots_len(v, (k - 1) as nat);
        assert(virtio_slot_ops(v, (k - 1) as nat).len() == 6);
        assert(virtio_slots_ops(v, k) == virtio_slots_ops(v, (k - 1) as nat) + virtio_slot_ops(v, (k - 1) as nat));
    }
}

/// Among the nodes of VirtIO windows 0 to k - 1, the node of window `i`
/// starts at op 6 * i, is named after the window's address, and its
/// `interrupts` cell is `VIRTIO0_IRQ + i`: the PLIC source the system bus
/// drives for the device in that window, never 0 (the PLIC's "no interrupt").
pub proof fn lemma_virtio_node_irq(v: DtVirtio, k: nat, i: nat)
    requires
        i < k,
        i < 0xFFFF_FFFE,
    ensures
        virtio_slots_ops(v, k).len() == 6 * k,
        virtio_slots_ops(v, k)[(6 * i) as int] == DtOp::Begin("virtio@"@ + hex((v.base + i * v.stride) as u64)),
        virtio_slots_ops(v, k)[(6 * i + 3) as int] == DtOp::Prop("interrupts"@, be32((VIRTIO0_IRQ + i) as u32)),
        (VIRTIO0_IRQ + i) as u32 != 0,
    decreases k,
{
    reveal(virtio_slot_ops);
    lemma_virtio_slots_len(v, k);
    lemma_virtio_slots_len(v, (k - 1) as nat);
    let prev = virtio_slots_ops(v, (k - 1) as nat);
    let last = virtio_slot_ops(v, (k - 1) as nat);
    assert(virtio_slots_ops(v, k) == prev + last);
    if i < k - 1 {
        lemma_virtio_node_irq(v, (k - 1) as nat, i);
        assert((prev + last)[(6 * i) as int] == prev[(6 * i) as int]);
        assert((prev + last)[(6 * i + 3) as int] == prev[(6 * i + 3) as int]);
    } else {
        assert(i == k - 1);
        assert((prev + last)[(6 * i) as int] == last[0]);
        assert((prev + last)[(6 * i + 3) as int] == last[3]);
    }
}

proof fn lemma_harts_len(isa: Seq<char>, k: nat)
    ensures
        harts_ops(isa, k).len() == 14 * k,
    decreases k,
{
    if k > 0 {
        reveal(hart_ops);
        lemma_harts_len(isa, (k - 1) as nat);
        assert(harts_ops(isa, k) == harts_ops(isa, (k - 1) as nat) + hart_ops(isa, (k - 1) as nat));
    }
}

proof fn lemma_intr_cells_len(k: nat, a: u32, b: u32)
    ensures
        intr_cells(k, a, b).len() == 4 * k,
    decreases k,
{
    if k > 0 {
        lemma_intr_cells_len((k - 1) as nat, a, b);
    }
}

/// Hart `h` of `k` has its own `cpu@h` node at op 14 * h, with `reg` h and a
/// local interrupt controller of phandle h + 1; in the interrupt cells the
/// CLINT and PLIC give for the harts, the pair for hart `h` names that same
/// phandle, with cause `a` and then cause `b`.
pub proof fn lemma_hart_nodes_and_cells(isa: Seq<char>, k: nat, h: nat, a: u32, b: u32)
    requires
        h < k,
        h < 0xFFFF_FFFE,
        k < 0xFFFF_FFFE,
    ensures
        harts_ops(isa, k).len() == 14 * k,
        harts_ops(isa, k)[(14 * h) as int] == DtOp::Begin("cpu@"@ + radix_str(h, 10)),
        harts_ops(isa, k)[(14 * h + 2) as int] == DtOp::Prop("reg"@, be32(h as u32)),
        harts_ops(isa, k)[(14 * h + 11) as int] == DtOp::Prop("phandle"@, be32((h + 1) as u32)),
        intr_cells(k, a, b).len() == 4 * k,
        intr_cells(k, a, b)[(4 * h) as int] == (h + 1) as u32,
        intr_cells(k, a, b)[(4 * h + 1) as int] == a,
        intr_cells(k, a, b)[(4 * h + 2) as int] == (h + 1) as u32,
        intr_cells(k, a, b)[(4 * h + 3) as int] == b,
    decreases k,
{
    reveal(hart_ops);
    lemma_harts_len(isa, k);
    lemma_harts_len(isa, (k - 1) as nat);
    lemma_intr_cells_len(k, a, b);
    lemma_intr_cells_len((k - 1) as nat, a, b);
    let prev = harts_ops(isa, (k - 1) as nat);
    let last = hart_ops(isa, (k - 1) as nat);
    assert(harts_ops(isa, k) == prev + last);
    let cprev = intr_cells((k - 1) as nat, a, b);
    let clast = seq![k as u32, a, k as u32, b];
    assert(intr_cells(k, a, b) == cprev + clast);
    if h < k - 1 {
        lemma_hart_nodes_and_cells(isa, (k - 1) as nat, h, a, b);
        assert((prev + last)[(14 * h) as int] == prev[(14 * h) as int]);
        assert((prev + last)[(14 * h + 2) as int] == prev[(14 * h + 2) as int]);
        assert((prev + last)[(14 * h + 11) as int] == prev[(14 * h + 11) as int]);
        assert((cprev + clast)[(4 * h) as int] == cprev[(4 * h) as int]);
        assert((cprev + clast)[(4 * h + 1) as int] == cprev[(4 * h + 1) as int]);
        assert((cprev + clast)[(4 * h + 2) as int] == cprev[(4 * h + 2) as int]);
        assert((cprev + clast)[(4 * h + 3) as int] == cprev[(4 * h + 3) as int]);
    } else {
        assert((prev + last)[(14 * h) as int] == last[0]);
        assert((prev + last)[(14 * h + 2) as int] == last[2]);
        assert((prev + last)[(14 * h + 11) as int] == last[11]);
        assert((cprev + clast)[(4 * h) as int] == clast[0]);
        assert((cprev + clast)[(4 * h + 1) as int] == clast[1]);
        assert((cprev + clast)[(4 * h + 2) as int] == clast[2]);
        assert((cprev + clast)[(4 * h + 3) as int] == clast[3]);
    }
}

} // verus!
