use riscv_vm::devices::virtio::p9::{
    deliver_response, error_reply, fetch_request, frame_reply, getattr_reply, open_reply, parse_header,
    parse_request, read_reply, read_size, readdir_reply, version_reply, walk_reply, write_reply, P9Device, P9Effect,
    P9Request, P9Transport, Qid,
    QTDIR, QTFILE, R_LERROR, T_ATTACH, T_LCREATE, T_READ, T_VERSION, T_WALK, T_WRITE,
};
use riscv_vm::devices::virtio::device::VirtioDevice;
use riscv_vm::dram::{Dram, DRAM_BASE};

fn le32(b: &[u8], at: usize) -> u32 {
    u32::from_le_bytes(b[at..at + 4].try_into().unwrap())
}

#[test]
fn header_split() {
    let msg = [11, 0, 0, 0, T_VERSION, 0x34, 0x12, 0xAA, 0xBB, 0xCC, 0xDD];
    let (t, tag, body) = parse_header(&msg).unwrap();
    assert_eq!(t, T_VERSION);
    assert_eq!(tag, 0x1234);
    assert_eq!(body, &[0xAA, 0xBB, 0xCC, 0xDD]);
    assert!(parse_header(&[1, 2, 3, 4, 5, 6]).is_none());
}

#[test]
fn version_negotiation() {
    let body = [0x00, 0x00, 0x01, 0x00, 8, 0];
    match parse_request(T_VERSION, &body) {
        P9Request::Version { msize, version_len } => {
            assert_eq!(msize, 65536);
            assert_eq!(version_len, 8);
        }
        _ => panic!("not a version request"),
    }
    let (m, reply) = version_reply(65536);
    assert_eq!(m, 8192);
    assert_eq!(le32(&reply, 0), 8192);
    assert_eq!(&reply[4..], b"\x08\x009P2000.L");
    assert_eq!(version_reply(4096).0, 4096);
}

#[test]
fn short_and_unknown_requests() {
    assert!(matches!(parse_request(T_ATTACH, &[1, 2, 3]), P9Request::Short));
    assert!(matches!(parse_request(T_READ, &[0; 15]), P9Request::Short));
    assert!(matches!(parse_request(200, &[0; 32]), P9Request::Unknown));
    // Lcreate needs the name and 12 more bytes.
    assert!(matches!(parse_request(T_LCREATE, &[1, 0, 0, 0, 3, 0, b'a', b'b', b'c']), P9Request::Short));
}

#[test]
fn walk_names_stop_at_truncation() {
    let mut body = vec![1, 0, 0, 0, 2, 0, 0, 0, 3, 0];
    body.extend_from_slice(&[3, 0, b'u', b's', b'r']);
    body.extend_from_slice(&[3, 0, b'b', b'i', b'n']);
    body.extend_from_slice(&[9, 0, b'x']); // claims 9 bytes, has 1
    match parse_request(T_WALK, &body) {
        P9Request::Walk { fid, new_fid, nwname, names } => {
            assert_eq!((fid, new_fid, nwname), (1, 2, 3));
            assert_eq!(names, vec![b"usr".to_vec(), b"bin".to_vec()]);
        }
        _ => panic!("not a walk request"),
    }
}

#[test]
fn write_data_clipped_to_body() {
    let mut body = vec![5, 0, 0, 0];
    body.extend_from_slice(&10u64.to_le_bytes());
    body.extend_from_slice(&100u32.to_le_bytes());
    body.extend_from_slice(b"hello");
    match parse_request(T_WRITE, &body) {
        P9Request::Write { fid, offset, count, data } => {
            assert_eq!((fid, offset, count), (5, 10, 100));
            assert_eq!(data, b"hello".to_vec());
        }
        _ => panic!("not a write request"),
    }
}

#[test]
fn replies_are_framed() {
    let r = frame_reply(T_WALK, 7, &[0, 0]);
    assert_eq!(r, vec![9, 0, 0, 0, T_WALK + 1, 7, 0, 0, 0]);
    let e = error_reply(3);
    assert_eq!(e, vec![11, 0, 0, 0, R_LERROR, 3, 0, 22, 0, 0, 0]);
}

#[test]
fn qid_and_walk_reply() {
    let q = Qid::new(QTDIR, 0x0102_0304_0506_0708);
    assert_eq!(q.encode(), [0x80, 0, 0, 0, 0, 8, 7, 6, 5, 4, 3, 2, 1]);
    let r = walk_reply(&[q, Qid::new(QTFILE, 9)]);
    assert_eq!(r.len(), 2 + 26);
    assert_eq!(&r[0..2], &[2, 0]);
    assert_eq!(r[15], QTFILE);
}

#[test]
fn open_read_write_replies() {
    let r = open_reply(Qid::new(QTFILE, 4), 8192);
    assert_eq!(r.len(), 17);
    assert_eq!(le32(&r, 13), 8168);
    assert_eq!(read_size(100_000, 8192), 8181);
    assert_eq!(read_size(10, 8192), 10);
    let rr = read_reply(b"abc");
    assert_eq!(rr, vec![3, 0, 0, 0, b'a', b'b', b'c']);
    assert_eq!(write_reply(42), vec![42, 0, 0, 0]);
}

#[test]
fn readdir_offsets_and_limits() {
    let entries = vec![Some((b"a".to_vec(), true)), None, Some((b"bb".to_vec(), false)), Some((b"c".to_vec(), false))];
    let all = readdir_reply(&entries, 0, 1000);
    // Three readable entries of 24 + name bytes each.
    assert_eq!(le32(&all, 0) as usize, 25 + 26 + 25);
    assert_eq!(all[4], QTDIR);
    // Entry offsets: next-entry offsets 1, 2, 3.
    assert_eq!(u64::from_le_bytes(all[4 + 13..4 + 21].try_into().unwrap()), 1);
    // Skipping two positions starts at the third entry (QID path 2).
    let skip = readdir_reply(&entries, 2, 1000);
    assert_eq!(le32(&skip, 0) as usize, 26 + 25);
    assert_eq!(u64::from_le_bytes(skip[4 + 5..4 + 13].try_into().unwrap()), 2);
    // A count that fits one entry only.
    let one = readdir_reply(&entries, 0, 40);
    assert_eq!(le32(&one, 0), 25);
}

#[test]
fn getattr_layout() {
    let r = getattr_reply(3, false, 1000);
    assert_eq!(r.len(), 153);
    assert_eq!(u64::from_le_bytes(r[0..8].try_into().unwrap()), 0x7ff);
    assert_eq!(le32(&r, 21), 0o100644);
    assert_eq!(u64::from_le_bytes(r[49..57].try_into().unwrap()), 1000);
    assert_eq!(u64::from_le_bytes(r[57..65].try_into().unwrap()), 4096);
    assert_eq!(u64::from_le_bytes(r[65..73].try_into().unwrap()), 2);
    assert!(r[73..].iter().all(|&b| b == 0));
}

#[test]
fn request_round_trip_through_queue() {
    let mut d = Dram::new(DRAM_BASE, 0x10000);
    // Descriptor 0: request at 0x3000 (5 bytes), chained to descriptor 1: reply buffer at 0x4000 (4 bytes).
    d.store_64(0x1000, DRAM_BASE + 0x3000).unwrap();
    d.store_32(0x1008, 5).unwrap();
    d.store_16(0x100C, 1).unwrap();
    d.store_16(0x100E, 1).unwrap();
    d.store_64(0x1010, DRAM_BASE + 0x4000).unwrap();
    d.store_32(0x1018, 4).unwrap();
    d.write_bytes(0x3000, b"hello").unwrap();
    d.store_16(0x1104, 0).unwrap(); // avail ring slot 0 -> descriptor 0
    let ex = fetch_request(&d, DRAM_BASE + 0x1000, DRAM_BASE + 0x1100, 16, 0).unwrap();
    assert_eq!(ex.head, 0);
    assert_eq!(ex.request, b"hello".to_vec());
    deliver_response(&mut d, DRAM_BASE + 0x1000, DRAM_BASE + 0x2000, 16, &ex, b"worlds").unwrap();
    assert_eq!(d.read_range(0x4000, 4).unwrap(), b"worl".to_vec());
    assert_eq!(d.load_16(0x2002), Ok(1));
    assert_eq!(d.load_32(0x2008), Ok(6));
}

#[test]
fn transport_shows_identity_and_mount_tag() {
    let t = P9Transport::new(b"share".to_vec());
    assert_eq!(t.read(0x000), 0x7472_6976);
    assert_eq!(t.read(0x008), 9);
    assert_eq!(t.read(0x100), 5);
    assert_eq!(t.read(0x102), b's' as u64);
    assert_eq!(t.read(0x106), b'e' as u64);
    assert_eq!(t.read(0x107), 0);
    assert_eq!(t.queue_size(), 16);
}

#[test]
fn transport_write_reports_notify_and_reset() {
    let mut t = P9Transport::new(b"tag".to_vec());
    assert_eq!(t.write(0x050, 0), P9Effect::Notify);
    assert_eq!(t.write(0x050, 1), P9Effect::Nothing);
    assert_eq!(t.write(0x070, 7), P9Effect::Nothing);
    assert_eq!(t.read(0x070), 7);
    assert_eq!(t.write(0x070, 0), P9Effect::Reset);
    assert_eq!(t.read(0x070), 0);
}

#[test]
fn device_leaves_queue_work_for_the_host_side() {
    let mut d = P9Device::new(b"tag".to_vec());
    let mut dram = Dram::new(DRAM_BASE, 0x1000);
    assert_eq!(d.device_id(), 9);
    assert!(!d.notify_pending);
    assert_eq!(d.write(0x050, 0, &mut dram), Ok(()));
    assert!(d.notify_pending);
    assert_eq!(d.write(0x070, 0, &mut dram), Ok(()));
    assert!(d.reset_pending);
    assert!(!d.is_interrupting());
}
