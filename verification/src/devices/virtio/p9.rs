//! 9P2000.L wire format: request decoding and reply encoding for the VirtIO
//! 9P file-sharing device. Messages are `size[4] type[1] tag[2] body`,
//! little-endian; a reply's type is its request's type plus one.

use vstd::prelude::*;
use crate::dram::{Dram, DramView, MemoryError, fits, le16_at, le32_at, le64_at, write_slice};
use super::device::{
    VRING_DESC_F_NEXT, desc_spec, load32, load64, load16_at_phys, load16_phys, phys, phys_to_offset, push_used_elem,
    read_desc, used_ring_spec, wadd, legacy_layout, queue_layout, VirtioDevice, CONFIG_GENERATION_OFFSET, DEVICE_FEATURES_OFFSET,
    DEVICE_FEATURES_SEL_OFFSET, DEVICE_ID_OFFSET, DRIVER_FEATURES_OFFSET, DRIVER_FEATURES_SEL_OFFSET,
    GUEST_PAGE_SIZE_OFFSET, INTERRUPT_ACK_OFFSET, INTERRUPT_STATUS_OFFSET, MAGIC_VALUE, MAGIC_VALUE_OFFSET,
    QUEUE_DESC_HIGH_OFFSET, QUEUE_DESC_LOW_OFFSET, QUEUE_DEVICE_HIGH_OFFSET, QUEUE_DEVICE_LOW_OFFSET,
    QUEUE_DRIVER_HIGH_OFFSET, QUEUE_DRIVER_LOW_OFFSET, QUEUE_NOTIFY_OFFSET, QUEUE_NUM_MAX_OFFSET, QUEUE_NUM_OFFSET,
    QUEUE_PFN_OFFSET, QUEUE_READY_OFFSET, QUEUE_SEL_OFFSET, QUEUE_SIZE, STATUS_OFFSET, VENDOR_ID, VENDOR_ID_OFFSET,
    VERSION, VERSION_OFFSET,
};

verus! {

pub const T_LERROR: u8 = 6;
pub const R_LERROR: u8 = 7;
pub const T_VERSION: u8 = 100;
pub const R_VERSION: u8 = 101;
pub const T_ATTACH: u8 = 104;
pub const R_ATTACH: u8 = 105;
pub const T_WALK: u8 = 110;
pub const R_WALK: u8 = 111;
pub const T_LOPEN: u8 = 12;
pub const R_LOPEN: u8 = 13;
pub const T_READ: u8 = 116;
pub const R_READ: u8 = 117;
pub const T_WRITE: u8 = 118;
pub const R_WRITE: u8 = 119;
pub const T_CLUNK: u8 = 120;
pub const R_CLUNK: u8 = 121;
pub const T_READDIR: u8 = 40;
pub const R_READDIR: u8 = 41;
pub const T_GETATTR: u8 = 24;
pub const R_GETATTR: u8 = 25;
pub const T_LCREATE: u8 = 14;
pub const R_LCREATE: u8 = 15;

/// QID type of a directory.
pub const QTDIR: u8 = 0x80;
/// QID type of a regular file.
pub const QTFILE: u8 = 0x00;

/// Linux open access modes.
pub const O_RDONLY: u32 = 0;
pub const O_WRONLY: u32 = 1;
pub const O_RDWR: u32 = 2;

/// Largest message size the server accepts.
pub const MAX_MSIZE: u32 = 8192;
/// Error code of every Rlerror (EINVAL).
pub const EINVAL: u32 = 22;

/// Little-endian bytes of a 16-bit value.
pub open spec fn le16_bytes(v: u16) -> Seq<u8> {
    seq![v as u8, (v >> 8u16) as u8]
}

/// Little-endian bytes of a 32-bit value.
pub open spec fn le32_bytes(v: u32) -> Seq<u8> {
    seq![v as u8, (v >> 8u32) as u8, (v >> 16u32) as u8, (v >> 24u32) as u8]
}

/// Little-endian bytes of a 64-bit value.
pub open spec fn le64_bytes(v: u64) -> Seq<u8> {
    seq![v as u8, (v >> 8u64) as u8, (v >> 16u64) as u8, (v >> 24u64) as u8,
        (v >> 32u64) as u8, (v >> 40u64) as u8, (v >> 48u64) as u8, (v >> 56u64) as u8]
}

fn push_le16(out: &mut Vec<u8>, v: u16)
    ensures
        final(out)@ == old(out)@ + le16_bytes(v),
{
    out.push(v as u8);
    out.push((v >> 8u16) as u8);
    proof {
        assert(final(out)@ =~= old(out)@ + le16_bytes(v));
    }
}

fn push_le32(out: &mut Vec<u8>, v: u32)
    ensures
        final(out)@ == old(out)@ + le32_bytes(v),
{
    out.push(v as u8);
    out.push((v >> 8u32) as u8);
    out.push((v >> 16u32) as u8);
    out.push((v >> 24u32) as u8);
    proof {
        assert(final(out)@ =~= old(out)@ + le32_bytes(v));
    }
}

fn push_le64(out: &mut Vec<u8>, v: u64)
    ensures
        final(out)@ == old(out)@ + le64_bytes(v),
{
    out.push(v as u8);
    out.push((v >> 8u64) as u8);
    out.push((v >> 16u64) as u8);
    out.push((v >> 24u64) as u8);
    out.push((v >> 32u64) as u8);
    out.push((v >> 40u64) as u8);
    out.push((v >> 48u64) as u8);
    out.push((v >> 56u64) as u8);
    proof {
        assert(final(out)@ =~= old(out)@ + le64_bytes(v));
    }
}

fn push_bytes(out: &mut Vec<u8>, bytes: &[u8])
    ensures
        final(out)@ == old(out)@ + bytes@,
{
    out.extend_from_slice(bytes);
    proof {
        assert(final(out)@ =~= old(out)@ + bytes@);
    }
}

fn get_le16(b: &[u8], at: usize) -> (r: u16)
    requires
        at + 2 <= b@.len(),
    ensures
        r == le16_at(b@, at as int),
{
    (b[at] as u16) | ((b[at + 1] as u16) << 8u16)
}

fn get_le32(b: &[u8], at: usize) -> (r: u32)
    requires
        at + 4 <= b@.len(),
    ensures
        r == le32_at(b@, at as int),
{
    (b[at] as u32) | ((b[at + 1] as u32) << 8u32) | ((b[at + 2] as u32) << 16u32) | ((b[at + 3] as u32) << 24u32)
}

fn get_le64(b: &[u8], at: usize) -> (r: u64)
    requires
        at + 8 <= b@.len(),
    ensures
        r == le64_at(b@, at as int),
{
    (b[at] as u64) | ((b[at + 1] as u64) << 8u64) | ((b[at + 2] as u64) << 16u64) | ((b[at + 3] as u64) << 24u64)
        | ((b[at + 4] as u64) << 32u64) | ((b[at + 5] as u64) << 40u64) | ((b[at + 6] as u64) << 48u64)
        | ((b[at + 7] as u64) << 56u64)
}

/// Unique file identifier of 9P: type, version, path.
#[derive(Clone, Copy, Debug, PartialEq, Eq, Structural)]
pub struct Qid {
    pub qtype: u8,
    pub version: u32,
    pub path: u64,
}

/// Wire form of a QID (13 bytes).
pub open spec fn qid_bytes(q: Qid) -> Seq<u8> {
    seq![q.qtype] + le32_bytes(q.version) + le64_bytes(q.path)
}

impl Qid {
    /// A version-0 QID.
    pub fn new(qtype: u8, path: u64) -> (r: Qid)
        ensures
            r == (Qid { qtype, version: 0, path }),
    {
        Qid { qtype, version: 0, path }
    }

    /// The 13-byte wire form.
    pub fn encode(&self) -> (r: [u8; 13])
        ensures
            r@ == qid_bytes(*self),
    {
        let v = self.version;
        let p = self.path;
        let r: [u8; 13] = [self.qtype, v as u8, (v >> 8u32) as u8, (v >> 16u32) as u8, (v >> 24u32) as u8,
            p as u8, (p >> 8u64) as u8, (p >> 16u64) as u8, (p >> 24u64) as u8,
            (p >> 32u64) as u8, (p >> 40u64) as u8, (p >> 48u64) as u8, (p >> 56u64) as u8];
        proof {
            assert(r@ =~= qid_bytes(*self));
        }
        r
    }
}

/// Names of a walk request, decoded from offset `at` on, at most `k` of them;
/// decoding stops at the first name that does not fit the body.
pub open spec fn walk_names(body: Seq<u8>, at: int, k: nat) -> Seq<Seq<u8>>
    decreases k,
{
    if k == 0 || at + 2 > body.len() {
        Seq::empty()
    } else {
        let n = le16_at(body, at) as int;
        if at + 2 + n > body.len() {
            Seq::empty()
        } else {
            seq![body.subrange(at + 2, at + 2 + n)] + walk_names(body, at + 2 + n, (k - 1) as nat)
        }
    }
}

/// A decoded request.
pub enum P9Request {
    Version { msize: u32, version_len: u16 },
    Attach { fid: u32, afid: u32 },
    Walk { fid: u32, new_fid: u32, nwname: u16, names: Vec<Vec<u8>> },
    Lopen { fid: u32, flags: u32 },
    Lcreate { fid: u32, name: Vec<u8> },
    Read { fid: u32, offset: u64, count: u32 },
    Write { fid: u32, offset: u64, count: u32, data: Vec<u8> },
    Readdir { fid: u32, offset: u64, count: u32 },
    Clunk { fid: u32 },
    Getattr { fid: u32, request_mask: u64 },
    /// A known request whose body is too short; it is answered with an empty body.
    Short,
    /// A request of unknown type; it is answered with Rlerror.
    Unknown,
}

/// A decoded request with byte strings as sequences.
pub enum RequestView {
    Version { msize: u32, version_len: u16 },
    Attach { fid: u32, afid: u32 },
    Walk { fid: u32, new_fid: u32, nwname: u16, names: Seq<Seq<u8>> },
    Lopen { fid: u32, flags: u32 },
    Lcreate { fid: u32, name: Seq<u8> },
    Read { fid: u32, offset: u64, count: u32 },
    Write { fid: u32, offset: u64, count: u32, data: Seq<u8> },
    Readdir { fid: u32, offset: u64, count: u32 },
    Clunk { fid: u32 },
    Getattr { fid: u32, request_mask: u64 },
    Short,
    Unknown,
}

impl View for P9Request {
    type V = RequestView;

    open spec fn view(&self) -> RequestView {
        match self {
            P9Request::Version { msize, version_len } => RequestView::Version { msize: *msize, version_len: *version_len },
            P9Request::Attach { fid, afid } => RequestView::Attach { fid: *fid, afid: *afid },
            P9Request::Walk { fid, new_fid, nwname, names } => RequestView::Walk {
                fid: *fid, new_fid: *new_fid, nwname: *nwname, names: names@.map_values(|n: Vec<u8>| n@),
            },
            P9Request::Lopen { fid, flags } => RequestView::Lopen { fid: *fid, flags: *flags },
            P9Request::Lcreate { fid, name } => RequestView::Lcreate { fid: *fid, name: name@ },
            P9Request::Read { fid, offset, count } => RequestView::Read { fid: *fid, offset: *offset, count: *count },
            P9Request::Write { fid, offset, count, data } => RequestView::Write {
                fid: *fid, offset: *offset, count: *count, data: data@,
            },
            P9Request::Readdir { fid, offset, count } => RequestView::Readdir { fid: *fid, offset: *offset, count: *count },
            P9Request::Clunk { fid } => RequestView::Clunk { fid: *fid },
            P9Request::Getattr { fid, request_mask } => RequestView::Getattr { fid: *fid, request_mask: *request_mask },
            P9Request::Short => RequestView::Short,
            P9Request::Unknown => RequestView::Unknown,
        }
    }
}

/// The request of type `t` with body `b`.
pub open spec fn request_spec(t: u8, b: Seq<u8>) -> RequestView {
    let n = b.len();
    if t == T_VERSION {
        if n < 6 { RequestView::Short } else { RequestView::Version { msize: le32_at(b, 0), version_len: le16_at(b, 4) } }
    } else if t == T_ATTACH {
        if n < 8 { RequestView::Short } else { RequestView::Attach { fid: le32_at(b, 0), afid: le32_at(b, 4) } }
    } else if t == T_WALK {
        if n < 10 {
            RequestView::Short
        } else {
            RequestView::Walk {
                fid: le32_at(b, 0), new_fid: le32_at(b, 4), nwname: le16_at(b, 8),
                names: walk_names(b, 10, le16_at(b, 8) as nat),
            }
        }
    } else if t == T_LOPEN {
        if n < 8 { RequestView::Short } else { RequestView::Lopen { fid: le32_at(b, 0), flags: le32_at(b, 4) } }
    } else if t == T_LCREATE {
        if n < 6 || n < 6 + le16_at(b, 4) + 12 {
            RequestView::Short
        } else {
            RequestView::Lcreate { fid: le32_at(b, 0), name: b.subrange(6, 6 + le16_at(b, 4)) }
        }
    } else if t == T_READ {
        if n < 16 { RequestView::Short } else { RequestView::Read { fid: le32_at(b, 0), offset: le64_at(b, 4), count: le32_at(b, 12) } }
    } else if t == T_WRITE {
        if n < 16 {
            RequestView::Short
        } else {
            let end = if 16 + le32_at(b, 12) < n { 16 + le32_at(b, 12) } else { n as int };
            RequestView::Write { fid: le32_at(b, 0), offset: le64_at(b, 4), count: le32_at(b, 12), data: b.subrange(16, end) }
        }
    } else if t == T_READDIR {
        if n < 16 { RequestView::Short } else { RequestView::Readdir { fid: le32_at(b, 0), offset: le64_at(b, 4), count: le32_at(b, 12) } }
    } else if t == T_CLUNK {
        if n < 4 { RequestView::Short } else { RequestView::Clunk { fid: le32_at(b, 0) } }
    } else if t == T_GETATTR {
        if n < 12 { RequestView::Short } else { RequestView::Getattr { fid: le32_at(b, 0), request_mask: le64_at(b, 4) } }
    } else {
        RequestView::Unknown
    }
}

/// Header of a message: type, tag and body; `None` below 7 bytes.
pub open spec fn header_spec(m: Seq<u8>) -> Option<(u8, u16, Seq<u8>)> {
    if m.len() < 7 { None } else { Some((m[4], le16_at(m, 5), m.subrange(7, m.len() as int))) }
}

/// A reply: size, type, tag, body.
pub open spec fn framed(resp_type: u8, tag: u16, body: Seq<u8>) -> Seq<u8> {
    le32_bytes((7 + body.len()) as u32) + seq![resp_type] + le16_bytes(tag) + body
}

/// A framed reply splits back into its type, tag and body, and its size
/// field is its length.
pub proof fn lemma_framed_roundtrip(t: u8, tag: u16, body: Seq<u8>)
    requires
        7 + body.len() <= u32::MAX,
    ensures
        header_spec(framed(t, tag, body)) == Some((t, tag, body)),
        framed(t, tag, body).len() == 7 + body.len(),
        le32_bytes(framed(t, tag, body).len() as u32) == framed(t, tag, body).subrange(0, 4),
{
    let m = framed(t, tag, body);
    assert(((tag as u8) as u16) | ((((tag >> 8u16) as u8) as u16) << 8u16) == tag) by (bit_vector);
    assert(m[5] == tag as u8 && m[6] == (tag >> 8u16) as u8);
    assert(m.subrange(7, m.len() as int) =~= body);
    assert(m.subrange(0, 4) =~= le32_bytes((7 + body.len()) as u32));
}

/// Split a message into type, tag and body.
pub fn parse_header(request: &[u8]) -> (r: Option<(u8, u16, &[u8])>)
    ensures
        match (r, header_spec(request@)) {
            (Some((t, tag, body)), Some((t2, tag2, body2))) => t == t2 && tag == tag2 && body@ == body2,
            (None, None) => true,
            _ => false,
        },
{
    if request.len() < 7 {
        return None;
    }
    let msg_type = request[4];
    let tag = get_le16(request, 5);
    let body = vstd::slice::slice_subrange(request, 7, request.len());
    Some((msg_type, tag, body))
}

/// Names of a walk request from offset `at`, at most `k`.
fn decode_walk_names(body: &[u8], at: usize, k: u16) -> (r: Vec<Vec<u8>>)
    requires
        at <= body@.len(),
    ensures
        r@.map_values(|n: Vec<u8>| n@) == walk_names(body@, at as int, k as nat),
{
    let mut names: Vec<Vec<u8>> = Vec::new();
    let mut offset = at;
    let mut i: u16 = 0;
    let ghost full = walk_names(body@, at as int, k as nat);
    proof {
        assert(names@.map_values(|n: Vec<u8>| n@) + walk_names(body@, at as int, k as nat) =~= full);
    }
    while i < k
        invariant
            i <= k,
            offset <= body@.len(),
            full == walk_names(body@, at as int, k as nat),
            names@.map_values(|n: Vec<u8>| n@) + walk_names(body@, offset as int, (k - i) as nat) == full,
        decreases k - i,
    {
        if body.len() - offset < 2 {
            proof {
                assert(walk_names(body@, offset as int, (k - i) as nat) =~= Seq::<Seq<u8>>::empty());
                assert(names@.map_values(|n: Vec<u8>| n@) =~= full);
            }
            return names;
        }
        let name_len = get_le16(body, offset) as usize;
        if body.len() - offset - 2 < name_len {
            proof {
                assert(names@.map_values(|n: Vec<u8>| n@) =~= full);
            }
            return names;
        }
        let name = vstd::slice::slice_to_vec(vstd::slice::slice_subrange(body, offset + 2, offset + 2 + name_len));
        let ghost before = names@.map_values(|n: Vec<u8>| n@);
        let ghost rest = walk_names(body@, (offset + 2 + name_len) as int, (k - i - 1) as nat);
        names.push(name);
        proof {
            assert(names@.map_values(|n: Vec<u8>| n@) =~= before.push(name@));
            assert(before.push(name@) + rest =~= before + (seq![name@] + rest));
        }
        offset = offset + 2 + name_len;
        i = i + 1;
    }
    proof {
        assert(walk_names(body@, offset as int, 0) =~= Seq::<Seq<u8>>::empty());
        assert(names@.map_values(|n: Vec<u8>| n@) =~= full);
    }
    names
}

/// Decode the body of a request of type `msg_type`.
pub fn parse_request(msg_type: u8, body: &[u8]) -> (r: P9Request)
    ensures
        r@ == request_spec(msg_type, body@),
{
    let n = body.len();
    if msg_type == T_VERSION {
        if n < 6 { P9Request::Short } else { P9Request::Version { msize: get_le32(body, 0), version_len: get_le16(body, 4) } }
    } else if msg_type == T_ATTACH {
        if n < 8 { P9Request::Short } else { P9Request::Attach { fid: get_le32(body, 0), afid: get_le32(body, 4) } }
    } else if msg_type == T_WALK {
        if n < 10 {
            P9Request::Short
        } else {
            let nwname = get_le16(body, 8);
            let names = decode_walk_names(body, 10, nwname);
            P9Request::Walk { fid: get_le32(body, 0), new_fid: get_le32(body, 4), nwname, names }
        }
    } else if msg_type == T_LOPEN {
        if n < 8 { P9Request::Short } else { P9Request::Lopen { fid: get_le32(body, 0), flags: get_le32(body, 4) } }
    } else if msg_type == T_LCREATE {
        if n < 6 {
            return P9Request::Short;
        }
        let name_len = get_le16(body, 4) as usize;
        if n < 6 + name_len + 12 {
            return P9Request::Short;
        }
        let name = vstd::slice::slice_to_vec(vstd::slice::slice_subrange(body, 6, 6 + name_len));
        P9Request::Lcreate { fid: get_le32(body, 0), name }
    } else if msg_type == T_READ {
        if n < 16 {
            P9Request::Short
        } else {
            P9Request::Read { fid: get_le32(body, 0), offset: get_le64(body, 4), count: get_le32(body, 12) }
        }
    } else if msg_type == T_WRITE {
        if n < 16 {
            return P9Request::Short;
        }
        let count = get_le32(body, 12);
        let end = if (count as usize) < n - 16 { 16 + count as usize } else { n };
        let data = vstd::slice::slice_to_vec(vstd::slice::slice_subrange(body, 16, end));
        P9Request::Write { fid: get_le32(body, 0), offset: get_le64(body, 4), count, data }
    } else if msg_type == T_READDIR {
        if n < 16 {
            P9Request::Short
        } else {
            P9Request::Readdir { fid: get_le32(body, 0), offset: get_le64(body, 4), count: get_le32(body, 12) }
        }
    } else if msg_type == T_CLUNK {
        if n < 4 { P9Request::Short } else { P9Request::Clunk { fid: get_le32(body, 0) } }
    } else if msg_type == T_GETATTR {
        if n < 12 { P9Request::Short } else { P9Request::Getattr { fid: get_le32(body, 0), request_mask: get_le64(body, 4) } }
    } else {
        P9Request::Unknown
    }
}

/// Reply to a request of type `msg_type`: size, type + 1, tag, body.
pub fn frame_reply(msg_type: u8, tag: u16, body: &[u8]) -> (r: Vec<u8>)
    requires
        msg_type < 255,
        body@.len() + 7 <= usize::MAX,
    ensures
        r@ == framed((msg_type + 1) as u8, tag, body@),
{
    let total = (4 + 1 + 2 + body.len()) as u32;
    let mut out: Vec<u8> = Vec::new();
    push_le32(&mut out, total);
    out.push(msg_type + 1);
    push_le16(&mut out, tag);
    push_bytes(&mut out, body);
    proof {
        assert(out@ =~= framed((msg_type + 1) as u8, tag, body@));
    }
    out
}

/// Rlerror with EINVAL for `tag`.
pub fn error_reply(tag: u16) -> (r: Vec<u8>)
    ensures
        r@ == framed(R_LERROR, tag, le32_bytes(EINVAL)),
{
    let mut out: Vec<u8> = Vec::new();
    push_le32(&mut out, 11);
    out.push(R_LERROR);
    push_le16(&mut out, tag);
    push_le32(&mut out, EINVAL);
    proof {
        assert(out@ =~= framed(R_LERROR, tag, le32_bytes(EINVAL)));
    }
    out
}

/// Message size the server settles on for a client's proposal.
pub open spec fn negotiated_msize(msize: u32) -> u32 {
    if msize < MAX_MSIZE { msize } else { MAX_MSIZE }
}

/// The protocol version string "9P2000.L".
pub open spec fn version_string() -> Seq<u8> {
    seq![0x39u8, 0x50, 0x32, 0x30, 0x30, 0x30, 0x2E, 0x4C]
}

/// Rversion body for a proposed message size, and the negotiated size.
pub fn version_reply(msize: u32) -> (r: (u32, Vec<u8>))
    ensures
        r.0 == negotiated_msize(msize),
        r.1@ == le32_bytes(negotiated_msize(msize)) + le16_bytes(8) + version_string(),
{
    let m = if msize < MAX_MSIZE { msize } else { MAX_MSIZE };
    let mut out: Vec<u8> = Vec::new();
    push_le32(&mut out, m);
    push_le16(&mut out, 8);
    let version: [u8; 8] = [0x39, 0x50, 0x32, 0x30, 0x30, 0x30, 0x2E, 0x4C];
    push_bytes(&mut out, version.as_slice());
    proof {
        assert(version@ =~= version_string());
    }
    (m, out)
}

/// QIDs one after another.
pub open spec fn qids_bytes(qs: Seq<Qid>) -> Seq<u8>
    decreases qs.len(),
{
    if qs.len() == 0 { Seq::empty() } else { qids_bytes(qs.drop_last()) + qid_bytes(qs.last()) }
}

/// Rwalk body: the number of QIDs, then the QIDs.
pub fn walk_reply(qids: &[Qid]) -> (r: Vec<u8>)
    ensures
        r@ == le16_bytes(qids@.len() as u16) + qids_bytes(qids@),
{
    let mut out: Vec<u8> = Vec::new();
    push_le16(&mut out, qids.len() as u16);
    let mut i: usize = 0;
    while i < qids.len()
        invariant
            i <= qids@.len(),
            out@ == le16_bytes(qids@.len() as u16) + qids_bytes(qids@.subrange(0, i as int)),
        decreases qids@.len() - i,
    {
        let q = qids[i].encode();
        push_bytes(&mut out, q.as_slice());
        proof {
            assert(qids@.subrange(0, i + 1).drop_last() =~= qids@.subrange(0, i as int));
            assert(out@ =~= le16_bytes(qids@.len() as u16) + qids_bytes(qids@.subrange(0, i + 1)));
        }
        i = i + 1;
    }
    proof {
        assert(qids@.subrange(0, qids@.len() as int) =~= qids@);
    }
    out
}

/// Rlopen / Rlcreate body: QID, then the I/O unit (message size less 24).
pub fn open_reply(qid: Qid, msize: u32) -> (r: Vec<u8>)
    requires
        msize >= 24,
    ensures
        r@ == qid_bytes(qid) + le32_bytes((msize - 24) as u32),
{
    let mut out: Vec<u8> = Vec::new();
    let q = qid.encode();
    push_bytes(&mut out, q.as_slice());
    push_le32(&mut out, msize - 24);
    out
}

/// Bytes a read may return: the count asked, at most the message size less 11.
pub fn read_size(count: u32, msize: u32) -> (r: usize)
    requires
        msize >= 11,
    ensures
        r == (if count < msize - 11 { count } else { (msize - 11) as u32 }),
{
    let limit = msize - 11;
    if count < limit { count as usize } else { limit as usize }
}

/// Rread body: the count, then the data.
pub fn read_reply(data: &[u8]) -> (r: Vec<u8>)
    ensures
        r@ == le32_bytes(data@.len() as u32) + data@,
{
    let mut out: Vec<u8> = Vec::new();
    push_le32(&mut out, data.len() as u32);
    push_bytes(&mut out, data);
    out
}

/// Rwrite body: the count written.
pub fn write_reply(written: usize) -> (r: Vec<u8>)
    ensures
        r@ == le32_bytes(written as u32),
{
    let mut out: Vec<u8> = Vec::new();
    push_le32(&mut out, written as u32);
    out
}

/// One directory entry: QID, offset of the next entry, type, name.
pub open spec fn dirent_bytes(qid: Qid, next: u64, name: Seq<u8>) -> Seq<u8> {
    qid_bytes(qid) + le64_bytes(next) + seq![qid.qtype] + le16_bytes(name.len() as u16) + name
}

/// Entries of a directory listing from position `i` on, where `skipped`
/// entries before the requested `offset` are passed over and entries that
/// could not be read (`None`) are left out; the listing stops before the
/// first entry that would not fit `count` bytes.
pub open spec fn dirents(entries: Seq<Option<(Seq<u8>, bool)>>, i: nat, cur: u64, offset: u64, count: nat, data: Seq<u8>) -> Seq<u8>
    decreases entries.len() - i,
{
    if i >= entries.len() || (cur >= offset && data.len() >= count) {
        data
    } else if cur < offset {
        dirents(entries, i + 1, (cur + 1) as u64, offset, count, data)
    } else {
        match entries[i as int] {
            None => dirents(entries, i + 1, cur, offset, count, data),
            Some((name, is_dir)) => {
                let qid = Qid { qtype: if is_dir { QTDIR } else { QTFILE }, version: 0, path: i as u64 };
                let e = dirent_bytes(qid, (cur + 1) as u64, name);
                if data.len() + e.len() > count {
                    data
                } else {
                    dirents(entries, i + 1, (cur + 1) as u64, offset, count, data + e)
                }
            },
        }
    }
}

/// Rreaddir body for a directory listing (name and directory flag of each
/// entry, `None` where it could not be read), from entry `offset` on, at most
/// `count` bytes of entries.
pub fn readdir_reply(entries: &Vec<Option<(Vec<u8>, bool)>>, offset: u64, count: u32) -> (r: Vec<u8>)
    requires
        entries@.len() < u64::MAX,
    ensures
        ({
            let es = entries@.map_values(|e: Option<(Vec<u8>, bool)>| match e { Some((n, d)) => Some((n@, d)), None => None });
            let data = dirents(es, 0, 0, offset, count as nat, Seq::empty());
            r@ == le32_bytes(data.len() as u32) + data
        }),
{
    let ghost es = entries@.map_values(|e: Option<(Vec<u8>, bool)>| match e { Some((n, d)) => Some((n@, d)), None => None });
    let ghost total = dirents(es, 0, 0, offset, count as nat, Seq::empty());
    let limit = count as usize;
    let mut data: Vec<u8> = Vec::new();
    let mut cur: u64 = 0;
    let mut i: usize = 0;
    let n = entries.len();
    while i < n
        invariant_except_break
            i <= n,
            n == entries@.len(),
            n < u64::MAX,
            cur <= i,
            limit == count,
            es == entries@.map_values(|e: Option<(Vec<u8>, bool)>| match e { Some((n, d)) => Some((n@, d)), None => None }),
            dirents(es, i as nat, cur, offset, count as nat, data@) == total,
        ensures
            data@ == total,
        decreases n - i,
    {
        if cur < offset {
            cur = cur + 1;
            i = i + 1;
            continue;
        }
        if data.len() >= limit {
            break;
        }
        match &entries[i] {
            Some((name, is_dir)) => {
                let qtype = if *is_dir { QTDIR } else { QTFILE };
                let qid = Qid::new(qtype, i as u64);
                let room = limit - data.len();
                if name.len() > room || room - name.len() < 13 + 8 + 1 + 2 {
                    break;
                }
                let ghost before = data@;
                let q = qid.encode();
                push_bytes(&mut data, q.as_slice());
                push_le64(&mut data, cur + 1);
                data.push(qtype);
                push_le16(&mut data, name.len() as u16);
                push_bytes(&mut data, name.as_slice());
                proof {
                    assert(data@ =~= before + dirent_bytes(qid, (cur + 1) as u64, name@));
                }
                cur = cur + 1;
            },
            None => {},
        }
        i = i + 1;
    }
    let mut out: Vec<u8> = Vec::new();
    push_le32(&mut out, data.len() as u32);
    push_bytes(&mut out, data.as_slice());
    out
}

/// Rgetattr body: valid mask, QID, mode, owner and group (0), link count,
/// device, size, block size and blocks; the four time pairs, generation and
/// data version (80 bytes) zero.
pub open spec fn getattr_bytes(fid: u32, is_dir: bool, size: u64) -> Seq<u8> {
    let qid = Qid { qtype: if is_dir { QTDIR } else { QTFILE }, version: 0, path: fid as u64 };
    le64_bytes(0x7ff) + qid_bytes(qid) + le32_bytes(if is_dir { 0o040755u32 } else { 0o100644u32 })
        + le32_bytes(0) + le32_bytes(0) + le64_bytes(1) + le64_bytes(0) + le64_bytes(size) + le64_bytes(4096)
        + le64_bytes(((size + 511) / 512) as u64) + Seq::new(80, |i: int| 0u8)
}

/// Rgetattr body for a file of `size` bytes (or a directory).
pub fn getattr_reply(fid: u32, is_dir: bool, size: u64) -> (r: Vec<u8>)
    requires
        size + 511 <= u64::MAX,
    ensures
        r@ == getattr_bytes(fid, is_dir, size),
{
    let qid = Qid::new(if is_dir { QTDIR } else { QTFILE }, fid as u64);
    let mut out: Vec<u8> = Vec::new();
    push_le64(&mut out, 0x7ff);
    let q = qid.encode();
    push_bytes(&mut out, q.as_slice());
    push_le32(&mut out, if is_dir { 0o040755u32 } else { 0o100644u32 });
    push_le32(&mut out, 0);
    push_le32(&mut out, 0);
    push_le64(&mut out, 1);
    push_le64(&mut out, 0);
    push_le64(&mut out, size);
    push_le64(&mut out, 4096);
    push_le64(&mut out, (size + 511) / 512);
    let mut k: u32 = 0;
    while k < 80
        invariant
            k <= 80,
            size + 511 <= u64::MAX,
            out@ == getattr_prefix(fid, is_dir, size) + Seq::new(k as nat, |i: int| 0u8),
        decreases 80 - k,
    {
        out.push(0);
        proof {
            assert(out@ =~= getattr_prefix(fid, is_dir, size) + Seq::new((k + 1) as nat, |i: int| 0u8));
        }
        k = k + 1;
    }
    out
}

/// Rgetattr body up to the block count.
spec fn getattr_prefix(fid: u32, is_dir: bool, size: u64) -> Seq<u8> {
    let qid = Qid { qtype: if is_dir { QTDIR } else { QTFILE }, version: 0, path: fid as u64 };
    le64_bytes(0x7ff) + qid_bytes(qid) + le32_bytes(if is_dir { 0o040755u32 } else { 0o100644u32 })
        + le32_bytes(0) + le32_bytes(0) + le64_bytes(1) + le64_bytes(0) + le64_bytes(size) + le64_bytes(4096)
        + le64_bytes(((size + 511) / 512) as u64)
}

/// A request taken off the queue: its head descriptor, the request bytes,
/// and the head descriptor's flags and next index (the reply buffer).
pub struct P9Exchange {
    pub head: u16,
    pub flags: u16,
    pub next: u16,
    pub request: Vec<u8>,
}

/// The request at ring position `last` of a queue of `qsz` entries: head
/// index, flags, next index and the bytes of the head buffer.
pub open spec fn fetch_spec(d: DramView, queue_desc: u64, queue_avail: u64, qsz: u32, last: u16)
    -> Result<(u16, u16, u16, Seq<u8>), MemoryError>
{
    let slot = (last as u32 % qsz) as u64;
    match load16_phys(d, wadd(wadd(queue_avail, 4), (slot * 2) as u64)) {
        Err(e) => Err(e),
        Ok(head) => match desc_spec(d, queue_desc, head) {
            Err(e) => Err(e),
            Ok((addr, len, flags, next)) => match phys(addr) {
                Err(e) => Err(e),
                Ok(o) => {
                    let start = o as usize;
                    if fits(start as u64, len as nat, d.data.len()) {
                        Ok((head, flags, next, d.data.subrange(start as int, start + len)))
                    } else {
                        Err(MemoryError::OutOfBounds(start as u64))
                    }
                },
            },
        },
    }
}

/// Take the request at ring position `last` off the queue.
pub fn fetch_request(dram: &Dram, queue_desc: u64, queue_avail: u64, qsz: u32, last: u16) -> (r: Result<P9Exchange, MemoryError>)
    requires
        qsz > 0,
    ensures
        match (r, fetch_spec(dram@, queue_desc, queue_avail, qsz, last)) {
            (Ok(ex), Ok((head, flags, next, bytes))) => ex.head == head && ex.flags == flags && ex.next == next && ex.request@ == bytes,
            (Err(e), Err(e2)) => e == e2,
            _ => false,
        },
{
    let ring_slot = (last as u32 % qsz) as u64;
    let head = load16_at_phys(dram, queue_avail.wrapping_add(4).wrapping_add(ring_slot * 2))?;
    let (buf_addr, buf_len, flags, next) = read_desc(dram, queue_desc, head)?;
    let buf_off = phys_to_offset(buf_addr)?;
    let request = dram.read_range(buf_off as usize, buf_len as usize)?;
    Ok(P9Exchange { head, flags, next, request })
}

/// DRAM after the reply is copied into the next descriptor's buffer (cut to
/// its length) when the head descriptor chains one, and the used ring records
/// the head with the reply's full length; the error with DRAM as far as it got.
pub open spec fn deliver_spec(d: DramView, queue_desc: u64, queue_used: u64, qsz: u32, head: u16, flags: u16, next: u16,
    resp: Seq<u8>) -> Result<DramView, (MemoryError, DramView)>
{
    let copied: Result<DramView, (MemoryError, DramView)> = if (flags as u64) & VRING_DESC_F_NEXT != 0 {
        match phys(wadd(queue_desc, (next as u64 * 16) as u64)) {
            Err(e) => Err((e, d)),
            Ok(o2) => match load64(d, o2) {
                Err(e) => Err((e, d)),
                Ok(raddr) => match load32(d, (o2 + 8) as u64) {
                    Err(e) => Err((e, d)),
                    Ok(rlen) => {
                        let wl: int = if resp.len() < rlen { resp.len() as int } else { rlen as int };
                        match phys(raddr) {
                            Err(e) => Err((e, d)),
                            Ok(ro) => if fits(ro, wl as nat, d.data.len()) {
                                Ok(DramView { data: write_slice(d.data, ro as int, resp.subrange(0, wl)), ..d })
                            } else {
                                Err((MemoryError::OutOfBounds(ro), d))
                            },
                        }
                    },
                },
            },
        }
    } else {
        Ok(d)
    };
    match copied {
        Err(x) => Err(x),
        Ok(d1) => used_ring_spec(queue_used, qsz, d1, head, resp.len() as u32),
    }
}

/// Deliver the reply to a request taken off the queue.
pub fn deliver_response(dram: &mut Dram, queue_desc: u64, queue_used: u64, qsz: u32, ex: &P9Exchange, response: &[u8])
    -> (r: Result<(), MemoryError>)
    requires
        qsz > 0,
    ensures
        match deliver_spec(old(dram)@, queue_desc, queue_used, qsz, ex.head, ex.flags, ex.next, response@) {
            Ok(d1) => r is Ok && final(dram)@ == d1,
            Err((e, d1)) => r == Err::<(), MemoryError>(e) && final(dram)@ == d1,
        },
{
    if (ex.flags as u64) & VRING_DESC_F_NEXT != 0 {
        let o2 = phys_to_offset(queue_desc.wrapping_add((ex.next as u64) * 16))?;
        let resp_addr = dram.load_64(o2)?;
        let resp_len = dram.load_32(o2 + 8)?;
        let write_len = if response.len() < resp_len as usize { response.len() } else { resp_len as usize };
        let ro = phys_to_offset(resp_addr)?;
        dram.write_bytes(ro, vstd::slice::slice_subrange(response, 0, write_len))?;
    }
    push_used_elem(dram, queue_used, qsz, ex.head, response.len() as u32)
}


/// VirtIO device ID of the 9P transport.
pub const VIRTIO_9P_DEVICE_ID: u32 = 9;

/// Registers of the 9P transport's MMIO window, and the mount tag its
/// configuration space shows.
pub struct P9Transport {
    pub driver_features: u32,
    pub driver_features_sel: u32,
    pub device_features_sel: u32,
    pub page_size: u32,
    pub queue_sel: u32,
    pub queue_num: u32,
    pub queue_desc: u64,
    pub queue_avail: u64,
    pub queue_used: u64,
    pub queue_ready: bool,
    pub interrupt_status: u32,
    pub status: u32,
    pub last_avail_idx: u16,
    pub mount_tag: Vec<u8>,
}

/// The transport's registers as values.
pub struct P9TransportView {
    pub driver_features: u32,
    pub driver_features_sel: u32,
    pub device_features_sel: u32,
    pub page_size: u32,
    pub queue_sel: u32,
    pub queue_num: u32,
    pub queue_desc: u64,
    pub queue_avail: u64,
    pub queue_used: u64,
    pub queue_ready: bool,
    pub interrupt_status: u32,
    pub status: u32,
    pub last_avail_idx: u16,
    pub mount_tag: Seq<u8>,
}

impl View for P9Transport {
    type V = P9TransportView;

    open spec fn view(&self) -> P9TransportView {
        P9TransportView {
            driver_features: self.driver_features,
            driver_features_sel: self.driver_features_sel,
            device_features_sel: self.device_features_sel,
            page_size: self.page_size,
            queue_sel: self.queue_sel,
            queue_num: self.queue_num,
            queue_desc: self.queue_desc,
            queue_avail: self.queue_avail,
            queue_used: self.queue_used,
            queue_ready: self.queue_ready,
            interrupt_status: self.interrupt_status,
            status: self.status,
            last_avail_idx: self.last_avail_idx,
            mount_tag: self.mount_tag@,
        }
    }
}

/// A register read: identification, the registers as written, and the
/// configuration space (tag length in its first two bytes, then the tag).
pub open spec fn p9_read_spec(s: P9TransportView, offset: u64) -> u64 {
    if offset == MAGIC_VALUE_OFFSET {
        MAGIC_VALUE
    } else if offset == VERSION_OFFSET {
        VERSION
    } else if offset == DEVICE_ID_OFFSET {
        VIRTIO_9P_DEVICE_ID as u64
    } else if offset == VENDOR_ID_OFFSET {
        VENDOR_ID
    } else if offset == DEVICE_FEATURES_OFFSET {
        if s.device_features_sel == 0 { 1 } else { 0 }
    } else if offset == DEVICE_FEATURES_SEL_OFFSET {
        s.device_features_sel as u64
    } else if offset == DRIVER_FEATURES_OFFSET {
        s.driver_features as u64
    } else if offset == DRIVER_FEATURES_SEL_OFFSET {
        s.driver_features_sel as u64
    } else if offset == GUEST_PAGE_SIZE_OFFSET {
        s.page_size as u64
    } else if offset == QUEUE_NUM_MAX_OFFSET {
        QUEUE_SIZE as u64
    } else if offset == QUEUE_SEL_OFFSET {
        s.queue_sel as u64
    } else if offset == QUEUE_NUM_OFFSET {
        s.queue_num as u64
    } else if offset == QUEUE_READY_OFFSET {
        if s.queue_ready { 1 } else { 0 }
    } else if offset == INTERRUPT_STATUS_OFFSET {
        s.interrupt_status as u64
    } else if offset == STATUS_OFFSET {
        s.status as u64
    } else if offset == CONFIG_GENERATION_OFFSET {
        0
    } else if offset >= 0x100 {
        let c = offset - 0x100;
        if c < 2 {
            s.mount_tag.len() as u64
        } else if c < 2 + s.mount_tag.len() {
            s.mount_tag[c - 2] as u64
        } else {
            0
        }
    } else {
        0
    }
}

/// What a register write asks of the device beyond the registers.
#[derive(Debug, Clone, Copy, PartialEq, Eq)]
pub enum P9Effect {
    /// Nothing more.
    Nothing,
    /// Queue notification: serve the available requests.
    Notify,
    /// Device reset: forget every open handle.
    Reset,
}

/// A register write: the registers after it, and what else it asks for.
pub open spec fn p9_write_spec(s: P9TransportView, offset: u64, val: u64) -> (P9TransportView, P9Effect) {
    let v = val as u32;
    if offset == DEVICE_FEATURES_SEL_OFFSET {
        (P9TransportView { device_features_sel: v, ..s }, P9Effect::Nothing)
    } else if offset == DRIVER_FEATURES_OFFSET {
        (P9TransportView { driver_features: v, ..s }, P9Effect::Nothing)
    } else if offset == DRIVER_FEATURES_SEL_OFFSET {
        (P9TransportView { driver_features_sel: v, ..s }, P9Effect::Nothing)
    } else if offset == QUEUE_SEL_OFFSET {
        (P9TransportView { queue_sel: v, ..s }, P9Effect::Nothing)
    } else if offset == QUEUE_NUM_OFFSET {
        (P9TransportView { queue_num: v, ..s }, P9Effect::Nothing)
    } else if offset == GUEST_PAGE_SIZE_OFFSET {
        (P9TransportView { page_size: v, ..s }, P9Effect::Nothing)
    } else if offset == QUEUE_PFN_OFFSET {
        if v != 0 {
            let (desc, avail, used) = legacy_layout(s.page_size, s.queue_num, v);
            (P9TransportView { queue_desc: desc, queue_avail: avail, queue_used: used, queue_ready: true, ..s }, P9Effect::Nothing)
        } else {
            (s, P9Effect::Nothing)
        }
    } else if offset == QUEUE_READY_OFFSET {
        (P9TransportView { queue_ready: v != 0, ..s }, P9Effect::Nothing)
    } else if offset == QUEUE_NOTIFY_OFFSET {
        (s, if v == 0 { P9Effect::Notify } else { P9Effect::Nothing })
    } else if offset == INTERRUPT_ACK_OFFSET {
        (P9TransportView { interrupt_status: s.interrupt_status & !v, ..s }, P9Effect::Nothing)
    } else if offset == STATUS_OFFSET {
        if v == 0 {
            (P9TransportView { status: 0, queue_ready: false, interrupt_status: 0, last_avail_idx: 0, ..s }, P9Effect::Reset)
        } else {
            (P9TransportView { status: v, ..s }, P9Effect::Nothing)
        }
    } else if offset == QUEUE_DESC_LOW_OFFSET {
        (P9TransportView { queue_desc: (s.queue_desc & 0xffff_ffff_0000_0000) | (v as u64), ..s }, P9Effect::Nothing)
    } else if offset == QUEUE_DESC_HIGH_OFFSET {
        (P9TransportView { queue_desc: (s.queue_desc & 0x0000_0000_ffff_ffff) | ((v as u64) << 32u64), ..s }, P9Effect::Nothing)
    } else if offset == QUEUE_DRIVER_LOW_OFFSET {
        (P9TransportView { queue_avail: (s.queue_avail & 0xffff_ffff_0000_0000) | (v as u64), ..s }, P9Effect::Nothing)
    } else if offset == QUEUE_DRIVER_HIGH_OFFSET {
        (P9TransportView { queue_avail: (s.queue_avail & 0x0000_0000_ffff_ffff) | ((v as u64) << 32u64), ..s }, P9Effect::Nothing)
    } else if offset == QUEUE_DEVICE_LOW_OFFSET {
        (P9TransportView { queue_used: (s.queue_used & 0xffff_ffff_0000_0000) | (v as u64), ..s }, P9Effect::Nothing)
    } else if offset == QUEUE_DEVICE_HIGH_OFFSET {
        (P9TransportView { queue_used: (s.queue_used & 0x0000_0000_ffff_ffff) | ((v as u64) << 32u64), ..s }, P9Effect::Nothing)
    } else {
        (s, P9Effect::Nothing)
    }
}

/// The transport's registers after reset, with mount tag `tag`.
pub open spec fn p9_reset_view(tag: Seq<u8>) -> P9TransportView {
    P9TransportView {
        driver_features: 0,
        driver_features_sel: 0,
        device_features_sel: 0,
        page_size: 4096,
        queue_sel: 0,
        queue_num: 0,
        queue_desc: 0,
        queue_avail: 0,
        queue_used: 0,
        queue_ready: false,
        interrupt_status: 0,
        status: 0,
        last_avail_idx: 0,
        mount_tag: tag,
    }
}

impl P9Transport {
    /// A reset transport showing mount tag `tag`.
    pub fn new(tag: Vec<u8>) -> (r: Self)
        ensures
            r@ == p9_reset_view(tag@),
    {
        P9Transport {
            driver_features: 0,
            driver_features_sel: 0,
            device_features_sel: 0,
            page_size: 4096,
            queue_sel: 0,
            queue_num: 0,
            queue_desc: 0,
            queue_avail: 0,
            queue_used: 0,
            queue_ready: false,
            interrupt_status: 0,
            status: 0,
            last_avail_idx: 0,
            mount_tag: tag,
        }
    }

    /// Register read at `offset`.
    pub fn read(&self, offset: u64) -> (r: u64)
        ensures
            r == p9_read_spec(self@, offset),
    {
        if offset == MAGIC_VALUE_OFFSET {
            MAGIC_VALUE
        } else if offset == VERSION_OFFSET {
            VERSION
        } else if offset == DEVICE_ID_OFFSET {
            VIRTIO_9P_DEVICE_ID as u64
        } else if offset == VENDOR_ID_OFFSET {
            VENDOR_ID
        } else if offset == DEVICE_FEATURES_OFFSET {
            if self.device_features_sel == 0 { 1 } else { 0 }
        } else if offset == DEVICE_FEATURES_SEL_OFFSET {
            self.device_features_sel as u64
        } else if offset == DRIVER_FEATURES_OFFSET {
            self.driver_features as u64
        } else if offset == DRIVER_FEATURES_SEL_OFFSET {
            self.driver_features_sel as u64
        } else if offset == GUEST_PAGE_SIZE_OFFSET {
            self.page_size as u64
        } else if offset == QUEUE_NUM_MAX_OFFSET {
            QUEUE_SIZE as u64
        } else if offset == QUEUE_SEL_OFFSET {
            self.queue_sel as u64
        } else if offset == QUEUE_NUM_OFFSET {
            self.queue_num as u64
        } else if offset == QUEUE_READY_OFFSET {
            if self.queue_ready { 1 } else { 0 }
        } else if offset == INTERRUPT_STATUS_OFFSET {
            self.interrupt_status as u64
        } else if offset == STATUS_OFFSET {
            self.status as u64
        } else if offset == CONFIG_GENERATION_OFFSET {
            0
        } else if offset >= 0x100 {
            let c = offset - 0x100;
            if c < 2 {
                self.mount_tag.len() as u64
            } else if c - 2 < self.mount_tag.len() as u64 {
                self.mount_tag[(c - 2) as usize] as u64
            } else {
                0
            }
        } else {
            0
        }
    }

    /// Register write at `offset`; the result says whether the queue must be
    /// served or the device's handles forgotten.
    pub fn write(&mut self, offset: u64, val: u64) -> (r: P9Effect)
        ensures
            (final(self)@, r) == p9_write_spec(old(self)@, offset, val),
    {
        let v = val as u32;
        if offset == DEVICE_FEATURES_SEL_OFFSET {
            self.device_features_sel = v;
        } else if offset == DRIVER_FEATURES_OFFSET {
            self.driver_features = v;
        } else if offset == DRIVER_FEATURES_SEL_OFFSET {
            self.driver_features_sel = v;
        } else if offset == QUEUE_SEL_OFFSET {
            self.queue_sel = v;
        } else if offset == QUEUE_NUM_OFFSET {
            self.queue_num = v;
        } else if offset == GUEST_PAGE_SIZE_OFFSET {
            self.page_size = v;
        } else if offset == QUEUE_PFN_OFFSET {
            if v != 0 {
                let (desc, avail, used) = queue_layout(self.page_size, self.queue_num, v);
                self.queue_desc = desc;
                self.queue_avail = avail;
                self.queue_used = used;
                self.queue_ready = true;
            }
        } else if offset == QUEUE_READY_OFFSET {
            self.queue_ready = v != 0;
        } else if offset == QUEUE_NOTIFY_OFFSET {
            return if v == 0 { P9Effect::Notify } else { P9Effect::Nothing };
        } else if offset == INTERRUPT_ACK_OFFSET {
            self.interrupt_status = self.interrupt_status & !v;
        } else if offset == STATUS_OFFSET {
            if v == 0 {
                self.status = 0;
                self.queue_ready = false;
                self.interrupt_status = 0;
                self.last_avail_idx = 0;
                return P9Effect::Reset;
            } else {
                self.status = v;
            }
        } else if offset == QUEUE_DESC_LOW_OFFSET {
            self.queue_desc = (self.queue_desc & 0xffff_ffff_0000_0000) | (v as u64);
        } else if offset == QUEUE_DESC_HIGH_OFFSET {
            self.queue_desc = (self.queue_desc & 0x0000_0000_ffff_ffff) | ((v as u64) << 32u64);
        } else if offset == QUEUE_DRIVER_LOW_OFFSET {
            self.queue_avail = (self.queue_avail & 0xffff_ffff_0000_0000) | (v as u64);
        } else if offset == QUEUE_DRIVER_HIGH_OFFSET {
            self.queue_avail = (self.queue_avail & 0x0000_0000_ffff_ffff) | ((v as u64) << 32u64);
        } else if offset == QUEUE_DEVICE_LOW_OFFSET {
            self.queue_used = (self.queue_used & 0xffff_ffff_0000_0000) | (v as u64);
        } else if offset == QUEUE_DEVICE_HIGH_OFFSET {
            self.queue_used = (self.queue_used & 0x0000_0000_ffff_ffff) | ((v as u64) << 32u64);
        }
        P9Effect::Nothing
    }

    /// The ring size the queue runs with: the driver's, or the maximum while
    /// it has set none.
    pub fn queue_size(&self) -> (r: u32)
        ensures
            r == (if self.queue_num > 0 { self.queue_num } else { QUEUE_SIZE as u32 }),
    {
        if self.queue_num > 0 { self.queue_num } else { QUEUE_SIZE as u32 }
    }
}

/// The 9P device as a bus holds it: the transport, and the work a register
/// write left for the host side (serving the queue, forgetting every handle).
///
/// The host side takes that work up after the access, clears the flag, and
/// acts on the host file system; the registers, the ring and the message
/// codec stay here.
pub struct P9Device {
    pub transport: P9Transport,
    pub notify_pending: bool,
    pub reset_pending: bool,
}

/// A `P9Device` as values.
pub struct P9DeviceView {
    pub transport: P9TransportView,
    pub notify_pending: bool,
    pub reset_pending: bool,
}

/// The device after its transport took a write with effect `e`.
pub open spec fn p9_after_effect(m: P9DeviceView, t: P9TransportView, e: P9Effect) -> P9DeviceView {
    match e {
        P9Effect::Notify => P9DeviceView { transport: t, notify_pending: true, ..m },
        P9Effect::Reset => P9DeviceView { transport: t, reset_pending: true, ..m },
        P9Effect::Nothing => P9DeviceView { transport: t, ..m },
    }
}

impl P9Device {
    /// A reset device showing mount tag `tag`, with no work pending.
    pub fn new(tag: Vec<u8>) -> (r: Self)
        ensures
            r.transport@ == p9_reset_view(tag@),
            !r.notify_pending,
            !r.reset_pending,
    {
        P9Device { transport: P9Transport::new(tag), notify_pending: false, reset_pending: false }
    }
}

impl VirtioDevice for P9Device {
    type Model = P9DeviceView;

    open spec fn model(&self) -> P9DeviceView {
        P9DeviceView { transport: self.transport@, notify_pending: self.notify_pending, reset_pending: self.reset_pending }
    }

    open spec fn read_result(m: P9DeviceView, offset: u64) -> Result<u64, MemoryError> {
        Ok(p9_read_spec(m.transport, offset))
    }

    open spec fn write_result(m: P9DeviceView, offset: u64, val: u64, d: DramView)
        -> (Result<(), MemoryError>, P9DeviceView, DramView)
    {
        let (t, e) = p9_write_spec(m.transport, offset, val);
        (Ok(()), p9_after_effect(m, t, e), d)
    }

    open spec fn poll_result(m: P9DeviceView, d: DramView) -> (Result<(), MemoryError>, P9DeviceView, DramView) {
        (Ok(()), m, d)
    }

    open spec fn interrupt_line(m: P9DeviceView) -> bool {
        m.transport.interrupt_status != 0
    }

    fn read(&self, offset: u64) -> (r: Result<u64, MemoryError>) {
        Ok(self.transport.read(offset))
    }

    fn write(&mut self, offset: u64, val: u64, dram: &mut Dram) -> (r: Result<(), MemoryError>) {
        let e = self.transport.write(offset, val);
        match e {
            P9Effect::Notify => { self.notify_pending = true; }
            P9Effect::Reset => { self.reset_pending = true; }
            P9Effect::Nothing => {}
        }
        Ok(())
    }

    fn is_interrupting(&self) -> (r: bool) {
        self.transport.interrupt_status != 0
    }

    fn device_id(&self) -> (r: u32) {
        VIRTIO_9P_DEVICE_ID
    }

    fn poll(&mut self, dram: &mut Dram) -> (r: Result<(), MemoryError>) {
        Ok(())
    }
}

} // verus!
