use syscall_tracer::event::{
    attaches_to_process, creates_file, host_byte_order, ByteOrder, EventKind, TraceEvent, COMM_LEN, EVENT_SIZE, PATH_LEN,
};

fn comm_of(s: &str) -> [u8; COMM_LEN] {
    let mut c = [0u8; COMM_LEN];
    c[..s.len()].copy_from_slice(s.as_bytes());
    c
}

fn path_of(s: &str) -> ([u8; PATH_LEN], u32) {
    let mut p = [0u8; PATH_LEN];
    p[..s.len()].copy_from_slice(s.as_bytes());
    (p, s.len() as u32)
}

#[test]
fn kind_tags_roundtrip() {
    for k in [EventKind::Exec, EventKind::Write, EventKind::Unlink, EventKind::Ptrace] {
        assert_eq!(EventKind::from_u8(k.to_u8()), Some(k));
    }
    assert_eq!(EventKind::from_u8(0), Some(EventKind::Exec));
    assert_eq!(EventKind::from_u8(1), Some(EventKind::Write));
    assert_eq!(EventKind::from_u8(2), Some(EventKind::Unlink));
    assert_eq!(EventKind::from_u8(3), Some(EventKind::Ptrace));
    assert_eq!(EventKind::from_u8(4), None);
    assert_eq!(EventKind::from_u8(255), None);
}

#[test]
fn kind_labels() {
    assert_eq!(EventKind::Exec.label(), "EXEC");
    assert_eq!(EventKind::Write.label(), "WRITE");
    assert_eq!(EventKind::Unlink.label(), "UNLINK");
    assert_eq!(EventKind::Ptrace.label(), "PTRACE");
}

#[test]
fn path_event_takes_tgid_and_uid_halves() {
    let (p, n) = path_of("/tmp/x");
    let e = TraceEvent::for_path(EventKind::Write, (4213u64 << 32) | 4215, (1000u64 << 32) | 1001, 77, comm_of("bash"), p, n);
    assert_eq!(e.kind, 1);
    assert_eq!(e.pid, 4213);
    assert_eq!(e.uid, 1001);
    assert_eq!(e.ktime_ns, 77);
    assert_eq!(e.path_len, 6);
    assert_eq!(e.target_pid, 0);
}

#[test]
fn ptrace_event_truncates_target() {
    let e = TraceEvent::for_ptrace(9u64 << 32, 0, 5, comm_of("gdb"), 0x1_0000_0005);
    assert_eq!(e.kind, 3);
    assert_eq!(e.pid, 9);
    assert_eq!(e.target_pid, 5);
    assert_eq!(e.path_len, 0);
    assert!(e.path.iter().all(|b| *b == 0));
}

#[test]
fn record_layout_and_roundtrip() {
    let (p, n) = path_of("/opt/agent");
    let e = TraceEvent::for_path(EventKind::Exec, 0x0102_0304_0000_0000, 0xAABB_CCDD, 0x1122_3344_5566_7788, comm_of("agent"), p, n);
    let bytes = e.to_bytes(ByteOrder::Little);
    assert_eq!(bytes.len(), EVENT_SIZE);
    assert_eq!(bytes[0], 0);
    assert_eq!(&bytes[4..8], &0x0102_0304u32.to_le_bytes());
    assert_eq!(&bytes[8..12], &0xAABB_CCDDu32.to_le_bytes());
    assert_eq!(&bytes[16..24], &0x1122_3344_5566_7788u64.to_le_bytes());
    assert_eq!(&bytes[24..29], b"agent");
    assert_eq!(&bytes[40..50], b"/opt/agent");
    assert_eq!(&bytes[296..300], &10u32.to_le_bytes());
    let mut extended = bytes.clone();
    extended.extend_from_slice(&[9, 9, 9]);
    let back = TraceEvent::from_bytes(&extended, ByteOrder::Little).unwrap();
    assert_eq!(back.to_bytes(ByteOrder::Little), bytes);
    assert_eq!(back.ktime_ns, 0x1122_3344_5566_7788);
    assert_eq!(back.pid, 0x0102_0304);
}

#[test]
fn short_items_are_not_records() {
    for order in [ByteOrder::Little, ByteOrder::Big] {
        assert!(TraceEvent::from_bytes(&[0u8; EVENT_SIZE - 1], order).is_none());
        assert!(TraceEvent::from_bytes(&[], order).is_none());
        assert!(TraceEvent::from_bytes(&[0u8; EVENT_SIZE], order).is_some());
    }
}

#[test]
fn comm_and_path_text() {
    let (p, n) = path_of("/tmp/payload");
    let e = TraceEvent::for_path(EventKind::Exec, 0, 0, 0, comm_of("python3"), p, n);
    assert_eq!(e.comm_string(), "python3");
    assert_eq!(e.path_string(), "/tmp/payload");
    let mut bad = e;
    bad.comm[0] = 0xff;
    bad.path[0] = 0xff;
    assert_eq!(bad.comm_string(), "");
    assert_eq!(bad.path_string(), "<invalid utf8>");
    let mut short = e;
    short.path_len = 4;
    assert_eq!(short.path_string(), "/tmp");
    let (up, un) = path_of("/tmp/é");
    let u = TraceEvent::for_path(EventKind::Write, 0, 0, 0, comm_of("a\0b"), up, un);
    assert_eq!(u.path_string(), "/tmp/é");
    // only trailing NULs are removed
    assert_eq!(u.comm_string(), "a\0b");
}

#[test]
fn kernel_filters() {
    assert!(creates_file(0o100));
    assert!(creates_file(0o101 | 0o1000));
    assert!(!creates_file(0o2));
    assert!(!creates_file(0));
    assert!(attaches_to_process(16));
    assert!(attaches_to_process(0x4206));
    assert!(!attaches_to_process(0));
    assert!(!attaches_to_process(17));
}

#[test]
fn big_endian_record_layout_and_roundtrip() {
    let (p, n) = path_of("/opt/agent");
    let e = TraceEvent::for_path(EventKind::Write, 0x0102_0304_0000_0000, 0xAABB_CCDD, 0x1122_3344_5566_7788, comm_of("agent"), p, n);
    let bytes = e.to_bytes(ByteOrder::Big);
    assert_eq!(bytes.len(), EVENT_SIZE);
    assert_eq!(bytes[0], 1);
    assert_eq!(&bytes[4..8], &0x0102_0304u32.to_be_bytes());
    assert_eq!(&bytes[8..12], &0xAABB_CCDDu32.to_be_bytes());
    assert_eq!(&bytes[16..24], &0x1122_3344_5566_7788u64.to_be_bytes());
    assert_eq!(&bytes[296..300], &10u32.to_be_bytes());
    let back = TraceEvent::from_bytes(&bytes, ByteOrder::Big).unwrap();
    assert_eq!(back.pid, 0x0102_0304);
    assert_eq!(back.ktime_ns, 0x1122_3344_5566_7788);
    assert_eq!(back.path_len, 10);
    // the same bytes read in the other order give other numbers
    let other = TraceEvent::from_bytes(&bytes, ByteOrder::Little).unwrap();
    assert_eq!(other.pid, 0x0403_0201);
    assert_eq!(other.ktime_ns, 0x8877_6655_4433_2211);
}

#[test]
fn host_order_matches_native_layout() {
    let order = host_byte_order();
    let expected = if 1u16.to_ne_bytes()[0] == 1 { ByteOrder::Little } else { ByteOrder::Big };
    assert_eq!(order, expected);
    let (p, n) = path_of("/tmp/x");
    let e = TraceEvent::for_path(EventKind::Exec, 7u64 << 32, 1000, 42, comm_of("sh"), p, n);
    let bytes = e.to_bytes(order);
    assert_eq!(&bytes[4..8], &7u32.to_ne_bytes());
    assert_eq!(&bytes[16..24], &42u64.to_ne_bytes());
    let back = TraceEvent::from_bytes(&bytes, order).unwrap();
    assert_eq!(back.pid, 7);
    assert_eq!(back.uid, 1000);
    assert_eq!(back.ktime_ns, 42);
}
