//! Flattened Device Tree (FDT) blobs describing the machine to the kernel,
//! and their placement in guest memory.
//!
//! A blob is a 40-byte header, an empty 16-byte memory reservation block,
//! the structure block (big-endian tokens, NUL-terminated node names padded
//! to 4 bytes, properties) and the strings block (NUL-terminated property
//! names, each stored once).

use vstd::prelude::*;
use vstd::utf8::encode_utf8;
use crate::dram::{Dram, lemma_store_load_8, write_le, write_slice};

pub mod generate;

pub use self::generate::{AttachedDevices, DtPlic, DtUart, DtVirtio, DtWindow, MemoryMap, generate_for};



verus! {

/// DTB location on the virt map (DRAM + 32 MiB).
pub const DTB_ADDRESS: u64 = 0x8200_0000;
/// Largest DTB that may be placed in guest memory.
pub const DTB_MAX_SIZE: usize = 64 * 1024;

pub const FDT_MAGIC: u32 = 0xd00d_feed;
pub const FDT_VERSION: u32 = 17;
pub const FDT_LAST_COMP_VERSION: u32 = 16;
pub const FDT_BEGIN_NODE: u32 = 0x0000_0001;
pub const FDT_END_NODE: u32 = 0x0000_0002;
pub const FDT_PROP: u32 = 0x0000_0003;
pub const FDT_END: u32 = 0x0000_0009;

/// Big-endian bytes of a 32-bit value.
pub open spec fn be32(v: u32) -> Seq<u8> {
    seq![(v >> 24u32) as u8, (v >> 16u32) as u8, (v >> 8u32) as u8, v as u8]
}

/// UTF-8 bytes of a string followed by a NUL.
pub open spec fn cstr(s: Seq<char>) -> Seq<u8> {
    encode_utf8(s).push(0)
}

/// Zero bytes that bring a length of `n` to a multiple of 4.
pub open spec fn pad_len(n: nat) -> nat {
    ((4 - n % 4) % 4) as nat
}

/// `s` padded with zeros to a multiple of 4 bytes.
pub open spec fn pad4(s: Seq<u8>) -> Seq<u8> {
    s + Seq::new(pad_len(s.len()), |i: int| 0u8)
}

/// Big-endian bytes of a sequence of 32-bit values.
pub open spec fn be32s(vs: Seq<u32>) -> Seq<u8>
    decreases vs.len(),
{
    if vs.len() == 0 { Seq::empty() } else { be32s(vs.drop_last()) + be32(vs.last()) }
}

/// NUL-terminated strings one after another.
pub open spec fn cstrs(ss: Seq<Seq<char>>) -> Seq<u8>
    decreases ss.len(),
{
    if ss.len() == 0 { Seq::empty() } else { cstrs(ss.drop_last()) + cstr(ss.last()) }
}

/// Builder state: structure block, strings block, and each stored property
/// name with its offset in the strings block.
pub struct DtbView {
    pub structure: Seq<u8>,
    pub strings: Seq<u8>,
    pub names: Seq<(Seq<char>, u32)>,
}

/// Offset of `name` in the strings block, if it is stored.
pub open spec fn name_offset(names: Seq<(Seq<char>, u32)>, name: Seq<char>) -> Option<u32>
    decreases names.len(),
{
    if names.len() == 0 {
        None
    } else if names.last().0 == name {
        Some(names.last().1)
    } else {
        name_offset(names.drop_last(), name)
    }
}

/// Offset of a property name, storing it first when new.
pub open spec fn intern(v: DtbView, name: Seq<char>) -> (u32, DtbView) {
    match name_offset(v.names, name) {
        Some(off) => (off, v),
        None => {
            let off = v.strings.len() as u32;
            (off, DtbView { strings: v.strings + cstr(name), names: v.names.push((name, off)), ..v })
        },
    }
}

/// State after a property `name` with `value` bytes (padded to 4 bytes).
#[verifier::opaque]
pub open spec fn with_prop(v: DtbView, name: Seq<char>, value: Seq<u8>) -> DtbView {
    let (off, v1) = intern(v, name);
    DtbView {
        structure: pad4(v1.structure + be32(FDT_PROP) + be32(value.len() as u32) + be32(off) + value),
        ..v1
    }
}

/// Each name is stored once; while the strings block fits the format's
/// 32-bit offsets, every stored name appears, NUL-terminated, at its offset;
/// the structure block is a whole number of words.
pub open spec fn table_ok(v: DtbView) -> bool {
    &&& v.structure.len() % 4 == 0
    &&& forall|i: int, j: int| 0 <= i < j < v.names.len() ==> #[trigger] v.names[i].0 != #[trigger] v.names[j].0
    &&& v.strings.len() <= u32::MAX ==> forall|i: int| #![trigger v.names[i]] 0 <= i < v.names.len() ==> {
        let (n, off) = v.names[i];
        &&& off + cstr(n).len() <= v.strings.len()
        &&& v.strings.subrange(off as int, off + cstr(n).len()) == cstr(n)
    }
}

/// The blob: header, empty reservation block, structure block with the end
/// token, strings block.
pub open spec fn fdt_blob(v: DtbView) -> Seq<u8> {
    let structure = v.structure + be32(FDT_END);
    let struct_size = structure.len() as u32;
    let strings_size = v.strings.len() as u32;
    let struct_off = 56u32;
    let strings_off = (struct_off + struct_size) as u32;
    let total = (strings_off + strings_size) as u32;
    be32(FDT_MAGIC) + be32(total) + be32(struct_off) + be32(strings_off) + be32(40) + be32(FDT_VERSION)
        + be32(FDT_LAST_COMP_VERSION) + be32(0) + be32(strings_size) + be32(struct_size)
        + Seq::new(16, |i: int| 0u8) + structure + v.strings
}

/// Builder of a flattened device tree blob.
pub struct DtbBuilder {
    struct_block: Vec<u8>,
    strings_block: Vec<u8>,
    string_offsets: Vec<(String, u32)>,
}

impl View for DtbBuilder {
    type V = DtbView;

    closed spec fn view(&self) -> DtbView {
        DtbView {
            structure: self.struct_block@,
            strings: self.strings_block@,
            names: Seq::new(self.string_offsets@.len(), |i: int| (self.string_offsets@[i].0@, self.string_offsets@[i].1)),
        }
    }
}

proof fn lemma_pad_len(n: nat)
    ensures
        pad_len(n) < 4,
        (n + pad_len(n)) % 4 == 0,
{
}

impl DtbBuilder {
    /// Consistency of the builder's tables.
    pub closed spec fn wf(&self) -> bool {
        table_ok(self@)
    }

    /// An empty builder.
    pub fn new() -> (r: Self)
        ensures
            r.wf(),
            r@ == (DtbView { structure: Seq::empty(), strings: Seq::empty(), names: Seq::empty() }),
    {
        let r = Self { struct_block: Vec::new(), strings_block: Vec::new(), string_offsets: Vec::new() };
        proof {
            assert(r@.names =~= Seq::<(Seq<char>, u32)>::empty());
        }
        r
    }

    fn write_u32(&mut self, value: u32)
        ensures
            final(self)@ == (DtbView { structure: old(self)@.structure + be32(value), ..old(self)@ }),
    {
        self.struct_block.push((value >> 24u32) as u8);
        self.struct_block.push((value >> 16u32) as u8);
        self.struct_block.push((value >> 8u32) as u8);
        self.struct_block.push(value as u8);
        proof {
            assert(self@.structure =~= old(self)@.structure + be32(value));
            assert(self@.names =~= old(self)@.names);
        }
    }

    fn write_bytes(&mut self, bytes: &[u8])
        ensures
            final(self)@ == (DtbView { structure: old(self)@.structure + bytes@, ..old(self)@ }),
    {
        self.struct_block.extend_from_slice(bytes);
        proof {
            assert(self@.structure =~= old(self)@.structure + bytes@);
            assert(self@.names =~= old(self)@.names);
        }
    }

    fn write_string(&mut self, s: &str)
        ensures
            final(self)@ == (DtbView { structure: old(self)@.structure + cstr(s@), ..old(self)@ }),
    {
        self.write_bytes(s.as_bytes());
        self.struct_block.push(0);
        proof {
            assert(self@.structure =~= old(self)@.structure + cstr(s@));
            assert(self@.names =~= old(self)@.names);
        }
    }

    fn align4(&mut self)
        ensures
            final(self)@ == (DtbView { structure: pad4(old(self)@.structure), ..old(self)@ }),
    {
        let ghost s0 = self@.structure;
        proof {
            lemma_pad_len(s0.len());
        }
        while self.struct_block.len() % 4 != 0
            invariant
                self@.structure.len() <= s0.len() + pad_len(s0.len()),
                pad_len(s0.len()) < 4,
                (s0.len() + pad_len(s0.len())) % 4 == 0,
                self@.structure == s0 + Seq::new((self@.structure.len() - s0.len()) as nat, |i: int| 0u8),
                self@.strings == old(self)@.strings,
                self@.names == old(self)@.names,
                s0 == old(self)@.structure,
            decreases s0.len() + pad_len(s0.len()) - self@.structure.len(),
        {
            let ghost before = self@.structure;
            self.struct_block.push(0);
            proof {
                assert(self@.structure =~= s0 + Seq::new((self@.structure.len() - s0.len()) as nat, |i: int| 0u8));
                assert(self@.names =~= old(self)@.names);
            }
        }
        proof {
            assert(self@.structure.len() == s0.len() + pad_len(s0.len()));
            assert(self@.structure =~= pad4(s0));
        }
    }

    /// Offset of `name` in the strings block; a new name is stored first.
    pub fn get_string_offset(&mut self, name: &str) -> (r: u32)
        requires
            old(self).wf(),
        ensures
            final(self).wf(),
            (r, final(self)@) == intern(old(self)@, name@),
    {
        let key = name.to_string();
        let mut i: usize = 0;
        let n = self.string_offsets.len();
        while i < n
            invariant
                i <= n,
                n == self.string_offsets@.len(),
                self@ == old(self)@,
                table_ok(self@),
                key@ == name@,
                forall|j: int| 0 <= j < i ==> #[trigger] self@.names[j].0 != name@,
            decreases n - i,
        {
            if self.string_offsets[i].0 == key {
                let off = self.string_offsets[i].1;
                proof {
                    lemma_name_offset_found(self@.names, name@, i as int);
                }
                return off;
            }
            i = i + 1;
        }
        proof {
            lemma_name_offset_absent(self@.names, name@);
        }
        let offset = self.strings_block.len() as u32;
        let ghost s0 = self@;
        self.strings_block.extend_from_slice(name.as_bytes());
        self.strings_block.push(0);
        self.string_offsets.push((key, offset));
        proof {
            assert(self@.strings =~= s0.strings + cstr(name@));
            assert(self@.names =~= s0.names.push((name@, offset)));
            lemma_intern_keeps_table(s0, name@);
        }
        offset
    }

    /// Open a node called `name`.
    pub fn begin_node(&mut self, name: &str)
        requires
            old(self).wf(),
        ensures
            final(self).wf(),
            final(self)@ == (DtbView {
                structure: pad4(old(self)@.structure + be32(FDT_BEGIN_NODE) + cstr(name@)),
                ..old(self)@
            }),
    {
        self.write_u32(FDT_BEGIN_NODE);
        self.write_string(name);
        self.align4();
        proof {
            lemma_pad_len((old(self)@.structure + be32(FDT_BEGIN_NODE) + cstr(name@)).len());
        }
    }

    /// Close the current node.
    pub fn end_node(&mut self)
        requires
            old(self).wf(),
        ensures
            final(self).wf(),
            final(self)@ == (DtbView { structure: old(self)@.structure + be32(FDT_END_NODE), ..old(self)@ }),
    {
        self.write_u32(FDT_END_NODE);
    }

    /// Property header (token, value length, name offset) then the value bytes, padded.
    fn prop_bytes(&mut self, name: &str, value: &[u8])
        requires
            old(self).wf(),
        ensures
            final(self).wf(),
            final(self)@ == with_prop(old(self)@, name@, value@),
    {
        let string_offset = self.get_string_offset(name);
        self.write_u32(FDT_PROP);
        self.write_u32(value.len() as u32);
        self.write_u32(string_offset);
        self.write_bytes(value);
        self.align4();
        proof {
            reveal(with_prop);
            let (off, v1) = intern(old(self)@, name@);
            lemma_pad_len((v1.structure + be32(FDT_PROP) + be32(value@.len() as u32) + be32(off) + value@).len());
        }
    }

    /// String property (NUL-terminated value).
    pub fn add_prop_string(&mut self, name: &str, value: &str)
        requires
            old(self).wf(),
        ensures
            final(self).wf(),
            final(self)@ == with_prop(old(self)@, name@, cstr(value@)),
    {
        let mut blob: Vec<u8> = Vec::new();
        blob.extend_from_slice(value.as_bytes());
        blob.push(0);
        proof {
            assert(blob@ =~= cstr(value@));
        }
        self.prop_bytes(name, blob.as_slice());
    }

    /// String-list property: each value NUL-terminated, one after another.
    pub fn add_prop_string_list(&mut self, name: &str, values: &[&str])
        requires
            old(self).wf(),
        ensures
            final(self).wf(),
            final(self)@ == with_prop(old(self)@, name@, cstrs(Seq::new(values@.len(), |i: int| values@[i]@))),
    {
        let ghost strs = Seq::new(values@.len(), |i: int| values@[i]@);
        let mut blob: Vec<u8> = Vec::new();
        let mut i: usize = 0;
        while i < values.len()
            invariant
                i <= values@.len(),
                strs == Seq::new(values@.len(), |k: int| values@[k]@),
                blob@ == cstrs(strs.subrange(0, i as int)),
            decreases values@.len() - i,
        {
            blob.extend_from_slice(values[i].as_bytes());
            blob.push(0);
            proof {
                assert(strs.subrange(0, i + 1).drop_last() =~= strs.subrange(0, i as int));
                assert(blob@ =~= cstrs(strs.subrange(0, i as int)) + cstr(strs[i as int]));
            }
            i = i + 1;
        }
        proof {
            assert(strs.subrange(0, values@.len() as int) =~= strs);
        }
        self.prop_bytes(name, blob.as_slice());
    }

    /// 32-bit cell property.
    pub fn add_prop_u32(&mut self, name: &str, value: u32)
        requires
            old(self).wf(),
        ensures
            final(self).wf(),
            final(self)@ == with_prop(old(self)@, name@, be32(value)),
    {
        let bytes: Vec<u8> = vec![(value >> 24u32) as u8, (value >> 16u32) as u8, (value >> 8u32) as u8, value as u8];
        proof {
            assert(bytes@ =~= be32(value));
        }
        self.prop_bytes(name, bytes.as_slice());
    }

    /// Array of 32-bit cells.
    pub fn add_prop_u32_array(&mut self, name: &str, values: &[u32])
        requires
            old(self).wf(),
            values@.len() * 4 <= usize::MAX,
        ensures
            final(self).wf(),
            final(self)@ == with_prop(old(self)@, name@, be32s(values@)),
    {
        let mut blob: Vec<u8> = Vec::new();
        let mut i: usize = 0;
        while i < values.len()
            invariant
                i <= values@.len(),
                blob@ == be32s(values@.subrange(0, i as int)),
            decreases values@.len() - i,
        {
            let v = values[i];
            blob.push((v >> 24u32) as u8);
            blob.push((v >> 16u32) as u8);
            blob.push((v >> 8u32) as u8);
            blob.push(v as u8);
            proof {
                assert(values@.subrange(0, i + 1).drop_last() =~= values@.subrange(0, i as int));
                assert(blob@ =~= be32s(values@.subrange(0, i as int)) + be32(v));
            }
            i = i + 1;
        }
        proof {
            assert(values@.subrange(0, values@.len() as int) =~= values@);
        }
        self.prop_bytes(name, blob.as_slice());
    }

    /// `reg` property with a 64-bit address and a 64-bit size (two cells each).
    pub fn add_prop_reg64(&mut self, address: u64, size: u64)
        requires
            old(self).wf(),
        ensures
            final(self).wf(),
            final(self)@ == with_prop(old(self)@, "reg"@,
                be32s(seq![(address >> 32u64) as u32, address as u32, (size >> 32u64) as u32, size as u32])),
    {
        let cells: [u32; 4] = [(address >> 32u64) as u32, address as u32, (size >> 32u64) as u32, size as u32];
        proof {
            reveal_with_fuel(be32s, 5);
            assert(cells@ =~= seq![(address >> 32u64) as u32, address as u32, (size >> 32u64) as u32, size as u32]);
        }
        self.add_prop_u32_array("reg", cells.as_slice());
    }

    /// Property without a value.
    pub fn add_prop_empty(&mut self, name: &str)
        requires
            old(self).wf(),
        ensures
            final(self).wf(),
            final(self)@ == with_prop(old(self)@, name@, Seq::empty()),
    {
        let empty: Vec<u8> = Vec::new();
        self.prop_bytes(name, empty.as_slice());
    }

    /// The finished blob: header, empty reservation block, structure block
    /// closed by the end token, strings block.
    pub fn finish(self) -> (r: Vec<u8>)
        requires
            56 + ((self@.structure.len() + 4) as u32) + (self@.strings.len() as u32) <= u32::MAX,
        ensures
            r@ == fdt_blob(self@),
    {
        let ghost v = self@;
        let mut this = self;
        this.write_u32(FDT_END);
        let struct_size = this.struct_block.len() as u32;
        let strings_size = this.strings_block.len() as u32;
        let mem_rsvmap_off: u32 = 40;
        let struct_off = mem_rsvmap_off + 16;
        let strings_off = struct_off + struct_size;
        let total_size = strings_off + strings_size;
        let header: [u32; 10] = [FDT_MAGIC, total_size, struct_off, strings_off, mem_rsvmap_off, FDT_VERSION,
            FDT_LAST_COMP_VERSION, 0, strings_size, struct_size];
        let mut dtb: Vec<u8> = Vec::new();
        let mut i: usize = 0;
        while i < 10
            invariant
                i <= 10,
                header@.len() == 10,
                dtb@ == be32s(header@.subrange(0, i as int)),
            decreases 10 - i,
        {
            let w = header[i];
            dtb.push((w >> 24u32) as u8);
            dtb.push((w >> 16u32) as u8);
            dtb.push((w >> 8u32) as u8);
            dtb.push(w as u8);
            proof {
                assert(header@.subrange(0, i + 1).drop_last() =~= header@.subrange(0, i as int));
                assert(dtb@ =~= be32s(header@.subrange(0, i as int)) + be32(w));
            }
            i = i + 1;
        }
        let zeros: [u8; 16] = [0u8; 16];
        dtb.extend_from_slice(zeros.as_slice());
        dtb.extend_from_slice(this.struct_block.as_slice());
        dtb.extend_from_slice(this.strings_block.as_slice());
        proof {
            reveal_with_fuel(be32s, 11);
            assert(header@.subrange(0, 10) =~= header@);
            assert(zeros@ =~= Seq::new(16, |i: int| 0u8));
            assert(dtb@ =~= fdt_blob(v));
        }
        dtb
    }
}

/// Asking again for a stored name gives the same offset and stores nothing.
pub proof fn lemma_intern_stable(v: DtbView, name: Seq<char>)
    ensures
        intern(intern(v, name).1, name) == intern(v, name),
{
    let (off, v1) = intern(v, name);
    if name_offset(v.names, name) is None {
        assert(v1.names.drop_last() =~= v.names);
        assert(v1.names.last() == (name, off));
    }
}

/// The header's total-size field equals the blob's length, and the strings
/// block ends the blob.
pub proof fn lemma_blob_layout(v: DtbView)
    requires
        56 + v.structure.len() + 4 + v.strings.len() <= u32::MAX,
    ensures
        fdt_blob(v).subrange(4, 8) == be32(fdt_blob(v).len() as u32),
        fdt_blob(v).subrange(fdt_blob(v).len() - v.strings.len(), fdt_blob(v).len() as int) == v.strings,
        fdt_blob(v).subrange(0, 4) == be32(FDT_MAGIC),
{
    let b = fdt_blob(v);
    let total = (56 + v.structure.len() + 4 + v.strings.len()) as u32;
    assert(b.len() == total);
    assert(b.subrange(4, 8) =~= be32(total));
    assert(b.subrange(0, 4) =~= be32(FDT_MAGIC));
    assert(b.subrange(b.len() - v.strings.len(), b.len() as int) =~= v.strings);
}

/// The stored offset of the last matching entry is found.
proof fn lemma_name_offset_found(names: Seq<(Seq<char>, u32)>, name: Seq<char>, i: int)
    requires
        0 <= i < names.len(),
        names[i].0 == name,
        forall|a: int, b: int| 0 <= a < b < names.len() ==> #[trigger] names[a].0 != #[trigger] names[b].0,
    ensures
        name_offset(names, name) == Some(names[i].1),
    decreases names.len(),
{
    if i < names.len() - 1 {
        assert(names.last().0 != name) by {
            assert(names[i].0 != names[names.len() - 1].0);
        }
        let d = names.drop_last();
        assert(d[i] == names[i]);
        lemma_name_offset_found(d, name, i);
    }
}

/// A name found in no entry has no offset.
proof fn lemma_name_offset_absent(names: Seq<(Seq<char>, u32)>, name: Seq<char>)
    requires
        forall|j: int| 0 <= j < names.len() ==> #[trigger] names[j].0 != name,
    ensures
        name_offset(names, name) is None,
    decreases names.len(),
{
    if names.len() > 0 {
        let d = names.drop_last();
        assert forall|j: int| 0 <= j < d.len() implies #[trigger] d[j].0 != name by {
            assert(d[j] == names[j]);
        }
        lemma_name_offset_absent(d, name);
    }
}

/// Storing a new name keeps the table consistent.
proof fn lemma_intern_keeps_table(v: DtbView, name: Seq<char>)
    requires
        table_ok(v),
        name_offset(v.names, name) is None,
        forall|j: int| 0 <= j < v.names.len() ==> #[trigger] v.names[j].0 != name,
    ensures
        table_ok(intern(v, name).1),
{
    let v1 = intern(v, name).1;
    let off = v.strings.len() as u32;
    assert forall|i: int, j: int| 0 <= i < j < v1.names.len() implies #[trigger] v1.names[i].0 != #[trigger] v1.names[j].0 by {
        if j == v.names.len() {
            assert(v1.names[i] == v.names[i]);
        } else {
            assert(v1.names[i] == v.names[i] && v1.names[j] == v.names[j]);
        }
    }
    if v1.strings.len() <= u32::MAX {
        assert forall|i: int| #![trigger v1.names[i]] 0 <= i < v1.names.len() implies {
            let (n, o) = v1.names[i];
            &&& o + cstr(n).len() <= v1.strings.len()
            &&& v1.strings.subrange(o as int, o + cstr(n).len()) == cstr(n)
        } by {
            if i < v.names.len() {
                let (n, o) = v.names[i];
                assert(v1.names[i] == v.names[i]);
                assert(v1.strings.subrange(o as int, o + cstr(n).len()) =~= v.strings.subrange(o as int, o + cstr(n).len()));
            } else {
                assert(v1.names[i] == (name, off));
                assert(v1.strings.subrange(off as int, off + cstr(name).len()) =~= cstr(name));
            }
        }
    }
}

/// The bytes of `dtb` stored at guest physical `dtb_addr`, as far as they
/// fall inside DRAM; returns `dtb_addr`.
pub fn write_dtb_to_dram_at(dram: &mut Dram, dtb: &[u8], dtb_addr: u64) -> (r: u64)
    requires
        dtb@.len() <= DTB_MAX_SIZE,
        old(dram)@.base <= dtb_addr,
        dtb_addr - old(dram)@.base + dtb@.len() <= u64::MAX,
    ensures
        r == dtb_addr,
        final(dram)@ == (crate::dram::DramView {
            data: write_slice(old(dram)@.data, (dtb_addr - old(dram)@.base) as int, dtb@),
            ..old(dram)@
        }),
{
    let offset = dtb_addr - dram.base();
    let mut i: usize = 0;
    while i < dtb.len()
        invariant
            i <= dtb@.len(),
            offset == dtb_addr - old(dram)@.base,
            offset + dtb@.len() <= u64::MAX,
            dram@.base == old(dram)@.base,
            dram@.data == write_slice(old(dram)@.data, offset as int, dtb@.subrange(0, i as int)),
        decreases dtb@.len() - i,
    {
        let ghost before = dram@.data;
        let _ = dram.store_8(offset + i as u64, dtb[i] as u64);
        proof {
            lemma_byte_store(before, (offset + i) as u64, dtb[i as int]);
            assert(dram@.data =~= write_slice(old(dram)@.data, offset as int, dtb@.subrange(0, i + 1)));
        }
        i = i + 1;
    }
    proof {
        assert(dtb@.subrange(0, dtb@.len() as int) =~= dtb@);
    }
    dtb_addr
}

/// A one-byte store of `b` sets exactly that byte.
proof fn lemma_byte_store(d: Seq<u8>, o: u64, b: u8)
    ensures
        write_le(d, o as int, b as u64, 1) == Seq::new(d.len(), |k: int| if k == o { b } else { d[k] }),
{
    assert(((b as u64) & 0xff) as u8 == b) by (bit_vector);
    if o < d.len() {
        lemma_store_load_8(d, o, b as u64);
    }
    assert(write_le(d, o as int, b as u64, 1) =~= Seq::new(d.len(), |k: int| if k == o { b } else { d[k] }));
}

} // verus!
