//! The record shared byte-for-byte between the in-kernel probes and the
//! userspace reader: its kinds, its ring-buffer layout, how the probes fill
//! it, and how userspace reads it back.
use vstd::prelude::*;
use vstd::utf8::{decode_utf8, valid_utf8};

use crate::text::{
    chars_of, string_of, trim_trailing_nuls, trimmed_of_nuls, utf8_str,
};

verus! {

broadcast use vstd::array::group_array_axioms;

/// Bytes of a task's `comm` name as the kernel reports it.
pub const COMM_LEN: usize = 16;

/// Bytes reserved for a path argument.
pub const PATH_LEN: usize = 256;

/// Size in bytes of one record in the ring buffer (`#[repr(C)]` layout of
/// [`TraceEvent`]).
pub const EVENT_SIZE: usize = 304;

/// `O_CREAT` in `openat(2)` flags.
pub const O_CREAT: i64 = 0o100;

/// `PTRACE_ATTACH` request number.
pub const PTRACE_ATTACH: i64 = 16;

/// `PTRACE_SEIZE` request number.
pub const PTRACE_SEIZE: i64 = 0x4206;

/// What a kernel-boundary observation is about.
#[derive(Clone, Copy, PartialEq, Eq, Structural, Debug)]
pub enum EventKind {
    /// A path was execve(2)'d.
    Exec,
    /// A path was opened with O_CREAT (a new file being written).
    Write,
    /// A path was unlinked (deleted).
    Unlink,
    /// A process attached to another one with PTRACE_ATTACH / PTRACE_SEIZE.
    Ptrace,
}

impl EventKind {
    /// The tag byte that stands for this kind in a record.
    pub open spec fn code(self) -> u8 {
        match self {
            EventKind::Exec => 0,
            EventKind::Write => 1,
            EventKind::Unlink => 2,
            EventKind::Ptrace => 3,
        }
    }

    /// The kind a tag byte stands for, if any.
    pub open spec fn of_code(v: u8) -> Option<EventKind> {
        if v == 0 {
            Some(EventKind::Exec)
        } else if v == 1 {
            Some(EventKind::Write)
        } else if v == 2 {
            Some(EventKind::Unlink)
        } else if v == 3 {
            Some(EventKind::Ptrace)
        } else {
            None
        }
    }

    /// Reads a tag byte: 0 exec, 1 write, 2 unlink, 3 ptrace; anything else
    /// is no kind.
    pub fn from_u8(v: u8) -> (r: Option<EventKind>)
        ensures
            r == EventKind::of_code(v),
    {
        match v {
            0 => Some(EventKind::Exec),
            1 => Some(EventKind::Write),
            2 => Some(EventKind::Unlink),
            3 => Some(EventKind::Ptrace),
            _ => None,
        }
    }

    /// The tag byte written for this kind.
    pub fn to_u8(self) -> (r: u8)
        ensures
            r == self.code(),
    {
        match self {
            EventKind::Exec => 0,
            EventKind::Write => 1,
            EventKind::Unlink => 2,
            EventKind::Ptrace => 3,
        }
    }

    /// The label used for this kind in the event stream.
    pub open spec fn label_spec(self) -> Seq<char> {
        match self {
            EventKind::Exec => "EXEC"@,
            EventKind::Write => "WRITE"@,
            EventKind::Unlink => "UNLINK"@,
            EventKind::Ptrace => "PTRACE"@,
        }
    }

    /// The label used for this kind in the event stream.
    pub fn label(self) -> (r: &'static str)
        ensures
            r@ == self.label_spec(),
    {
        match self {
            EventKind::Exec => "EXEC",
            EventKind::Write => "WRITE",
            EventKind::Unlink => "UNLINK",
            EventKind::Ptrace => "PTRACE",
        }
    }
}

/// Writing a kind's tag and reading it back gives the same kind; every
/// tag byte that reads as a kind is that kind's tag.
pub proof fn law_kind_tag_roundtrip(k: EventKind, v: u8)
    ensures
        EventKind::of_code(k.code()) == Some(k),
        EventKind::of_code(v) matches Some(k2) ==> k2.code() == v,
{
}

/// What a detection rule is told of one event.
pub struct Observation {
    pub kind: EventKind,
    pub pid: u32,
    pub uid: u32,
    pub path: Seq<char>,
    pub ktime_ns: u64,
}

/// A single kernel-boundary observation: an exec, a creating write, an
/// unlink, or a ptrace attach, captured at the relevant
/// `syscalls:sys_enter_*` tracepoint. Detection rules correlate these in
/// userspace.
#[derive(Clone, Copy)]
pub struct TraceEvent {
    /// Tag byte of the [`EventKind`].
    pub kind: u8,
    pub pid: u32,
    pub uid: u32,
    pub ktime_ns: u64,
    pub comm: [u8; COMM_LEN],
    pub path: [u8; PATH_LEN],
    pub path_len: u32,
    /// For ptrace events, the pid being attached to; 0 otherwise.
    pub target_pid: u32,
}

// ---------------------------------------------------------------------------
// Ring-buffer layout
// ---------------------------------------------------------------------------

/// The order in which the bytes of a multi-byte field sit in a record: that
/// of the machine the probes and the reader run on.
#[derive(Clone, Copy, PartialEq, Eq, Structural, Debug)]
pub enum ByteOrder {
    /// Least significant byte first.
    Little,
    /// Most significant byte first.
    Big,
}

/// Value of four bytes, the first one least significant.
pub open spec fn le_u32(b0: u8, b1: u8, b2: u8, b3: u8) -> u32 {
    (b0 as int + 256 * b1 as int + 65536 * b2 as int + 16777216 * b3 as int) as u32
}

/// Value of four bytes laid out in `order`.
pub open spec fn u32_of(order: ByteOrder, b0: u8, b1: u8, b2: u8, b3: u8) -> u32 {
    match order {
        ByteOrder::Little => le_u32(b0, b1, b2, b3),
        ByteOrder::Big => le_u32(b3, b2, b1, b0),
    }
}

/// The `u32` at offset `o` of `b`, in `order`.
pub open spec fn u32_at(b: Seq<u8>, o: int, order: ByteOrder) -> u32 {
    u32_of(order, b[o], b[o + 1], b[o + 2], b[o + 3])
}

/// The `u64` at offset `o` of `b`, in `order`.
pub open spec fn u64_at(b: Seq<u8>, o: int, order: ByteOrder) -> u64 {
    match order {
        ByteOrder::Little => (u32_at(b, o, order) as int + 4294967296 * u32_at(b, o + 4, order) as int) as u64,
        ByteOrder::Big => (u32_at(b, o + 4, order) as int + 4294967296 * u32_at(b, o, order) as int) as u64,
    }
}

/// The bytes of a `u32` in `order`.
pub open spec fn u32_bytes(x: u32, order: ByteOrder) -> Seq<u8> {
    match order {
        ByteOrder::Little => seq![
            (x % 256) as u8,
            ((x / 256) % 256) as u8,
            ((x / 65536) % 256) as u8,
            (x / 16777216) as u8,
        ],
        ByteOrder::Big => seq![
            (x / 16777216) as u8,
            ((x / 65536) % 256) as u8,
            ((x / 256) % 256) as u8,
            (x % 256) as u8,
        ],
    }
}

/// The bytes of a `u64` in `order`.
pub open spec fn u64_bytes(x: u64, order: ByteOrder) -> Seq<u8> {
    let lo = (x % 4294967296) as u32;
    let hi = (x / 4294967296) as u32;
    match order {
        ByteOrder::Little => u32_bytes(lo, order) + u32_bytes(hi, order),
        ByteOrder::Big => u32_bytes(hi, order) + u32_bytes(lo, order),
    }
}

/// The bytes of a record as the kernel writes it into the ring buffer on a
/// machine of byte order `order`: every field at its `#[repr(C)]` offset,
/// padding zeroed.
pub open spec fn record_bytes(e: TraceEvent, order: ByteOrder) -> Seq<u8> {
    seq![e.kind, 0u8, 0u8, 0u8] + u32_bytes(e.pid, order) + u32_bytes(e.uid, order) + seq![0u8, 0u8, 0u8, 0u8]
        + u64_bytes(e.ktime_ns, order) + e.comm@ + e.path@ + u32_bytes(e.path_len, order) + u32_bytes(
        e.target_pid,
        order,
    )
}

/// `b` holds the record `e` at its start, in `order`: each field of `e` is
/// read at its offset (padding bytes are not looked at).
pub open spec fn holds_record(b: Seq<u8>, e: TraceEvent, order: ByteOrder) -> bool {
    &&& b.len() >= EVENT_SIZE
    &&& e.kind == b[0]
    &&& e.pid == u32_at(b, 4, order)
    &&& e.uid == u32_at(b, 8, order)
    &&& e.ktime_ns == u64_at(b, 16, order)
    &&& e.comm@ == b.subrange(24, 40)
    &&& e.path@ == b.subrange(40, 296)
    &&& e.path_len == u32_at(b, 296, order)
    &&& e.target_pid == u32_at(b, 300, order)
}

/// What userspace on a machine of byte order `order` reads out of a
/// ring-buffer item: nothing when it is shorter than a record, else the
/// record at its start.
pub open spec fn decoded(b: Seq<u8>, order: ByteOrder) -> Option<TraceEvent> {
    if b.len() < EVENT_SIZE {
        None
    } else {
        Some(choose|e: TraceEvent| holds_record(b, e, order))
    }
}

/// Bytes hold at most one record.
pub proof fn lemma_record_unique(b: Seq<u8>, e1: TraceEvent, e2: TraceEvent, order: ByteOrder)
    requires
        holds_record(b, e1, order),
        holds_record(b, e2, order),
    ensures
        e1 == e2,
{
    assert(e1.comm =~= e2.comm);
    assert(e1.path =~= e2.path);
}

proof fn lemma_u32_roundtrip(x: u32)
    ensures
        le_u32(
            (x % 256) as u8,
            ((x / 256) % 256) as u8,
            ((x / 65536) % 256) as u8,
            (x / 16777216) as u8,
        ) == x,
{
    assert((x % 256) as int + 256 * ((x / 256) % 256) as int + 65536 * ((x / 65536) % 256) as int
        + 16777216 * (x / 16777216) as int == x as int) by (nonlinear_arith);
}

proof fn lemma_u64_split(x: u64)
    ensures
        ((x % 4294967296) as u32) as int + 4294967296 * ((x / 4294967296) as u32) as int == x as int,
{
    assert((x % 4294967296) as int + 4294967296 * (x / 4294967296) as int == x as int) by (nonlinear_arith);
}

/// The bytes the kernel writes for a record hold that record.
pub proof fn lemma_record_bytes_hold(e: TraceEvent, order: ByteOrder)
    ensures
        record_bytes(e, order).len() == EVENT_SIZE,
        holds_record(record_bytes(e, order), e, order),
{
    let b = record_bytes(e, order);
    lemma_u32_roundtrip(e.pid);
    lemma_u32_roundtrip(e.uid);
    lemma_u32_roundtrip(e.path_len);
    lemma_u32_roundtrip(e.target_pid);
    lemma_u32_roundtrip((e.ktime_ns % 4294967296) as u32);
    lemma_u32_roundtrip((e.ktime_ns / 4294967296) as u32);
    lemma_u64_split(e.ktime_ns);
    assert(b.subrange(24, 40) =~= e.comm@);
    assert(b.subrange(40, 296) =~= e.path@);
}

/// A record written into the ring buffer by the kernel side is read back
/// unchanged by userspace on the same machine, whatever follows it in the
/// item.
pub proof fn law_record_roundtrip(e: TraceEvent, rest: Seq<u8>, order: ByteOrder)
    ensures
        decoded(record_bytes(e, order) + rest, order) == Some(e),
{
    let b = record_bytes(e, order) + rest;
    lemma_record_bytes_hold(e, order);
    let r = record_bytes(e, order);
    assert(b.subrange(24, 40) =~= r.subrange(24, 40));
    assert(b.subrange(40, 296) =~= r.subrange(40, 296));
    assert(holds_record(b, e, order));
    let c = choose|x: TraceEvent| holds_record(b, x, order);
    lemma_record_unique(b, c, e, order);
}

/// `u16::from_ne_bytes`: the value of two bytes in the machine's own byte
/// order. Claimed: the result is the value of the bytes read in one of the
/// two orders. Which one depends on the machine, so it is left unsaid.
#[verifier::external_body]
fn native_u16(bytes: [u8; 2]) -> (r: u16)
    ensures
        r as int == bytes[0] as int + 256 * bytes[1] as int || r as int == 256 * bytes[0] as int
            + bytes[1] as int,
{
    u16::from_ne_bytes(bytes)
}

/// The byte order of the machine this runs on: the order in which the
/// kernel side lays out records, and userspace must read them. It depends
/// on the machine, so nothing is promised of which one comes back.
pub fn host_byte_order() -> ByteOrder {
    if native_u16([1u8, 0u8]) == 1 {
        ByteOrder::Little
    } else {
        ByteOrder::Big
    }
}

fn u32_from(order: ByteOrder, b0: u8, b1: u8, b2: u8, b3: u8) -> (r: u32)
    ensures
        r == u32_of(order, b0, b1, b2, b3),
{
    match order {
        ByteOrder::Little => b0 as u32 + 256 * (b1 as u32) + 65536 * (b2 as u32) + 16777216 * (b3 as u32),
        ByteOrder::Big => b3 as u32 + 256 * (b2 as u32) + 65536 * (b1 as u32) + 16777216 * (b0 as u32),
    }
}

fn u32_read(b: &[u8], o: usize, order: ByteOrder) -> (r: u32)
    requires
        o + 4 <= b@.len(),
    ensures
        r == u32_at(b@, o as int, order),
{
    u32_from(order, b[o], b[o + 1], b[o + 2], b[o + 3])
}

fn push_u32(out: &mut Vec<u8>, x: u32, order: ByteOrder)
    ensures
        final(out)@ == old(out)@ + u32_bytes(x, order),
{
    match order {
        ByteOrder::Little => {
            out.push((x % 256) as u8);
            out.push(((x / 256) % 256) as u8);
            out.push(((x / 65536) % 256) as u8);
            out.push((x / 16777216) as u8);
        },
        ByteOrder::Big => {
            out.push((x / 16777216) as u8);
            out.push(((x / 65536) % 256) as u8);
            out.push(((x / 256) % 256) as u8);
            out.push((x % 256) as u8);
        },
    }
    assert(final(out)@ =~= old(out)@ + u32_bytes(x, order));
}

fn push_bytes(out: &mut Vec<u8>, bytes: &[u8])
    ensures
        final(out)@ == old(out)@ + bytes@,
{
    let mut i: usize = 0;
    while i < bytes.len()
        invariant
            i <= bytes@.len(),
            out@ == old(out)@ + bytes@.take(i as int),
        decreases bytes@.len() - i,
    {
        out.push(bytes[i]);
        assert(bytes@.take(i + 1) =~= bytes@.take(i as int).push(bytes@[i as int]));
        i = i + 1;
    }
    assert(bytes@.take(bytes@.len() as int) =~= bytes@);
}

impl TraceEvent {
    /// The record an exec, write or unlink probe emits: the current task's
    /// tgid (upper half of `pid_tgid`), uid (lower half of `uid_gid`),
    /// timestamp and comm, with the path bytes read from the syscall
    /// argument and their length.
    pub fn for_path(
        kind: EventKind,
        pid_tgid: u64,
        uid_gid: u64,
        ktime_ns: u64,
        comm: [u8; COMM_LEN],
        path: [u8; PATH_LEN],
        path_len: u32,
    ) -> (r: TraceEvent)
        ensures
            r.kind == kind.code(),
            r.pid == (pid_tgid >> 32u64) as u32,
            r.uid == uid_gid as u32,
            r.ktime_ns == ktime_ns,
            r.comm == comm,
            r.path == path,
            r.path_len == path_len,
            r.target_pid == 0,
    {
        TraceEvent {
            kind: kind.to_u8(),
            pid: (pid_tgid >> 32u64) as u32,
            uid: uid_gid as u32,
            ktime_ns,
            comm,
            path,
            path_len,
            target_pid: 0,
        }
    }

    /// The record the ptrace probe emits: like a path record with an empty
    /// path, and the target pid taken from the syscall's pid argument
    /// (truncated to 32 bits).
    pub fn for_ptrace(pid_tgid: u64, uid_gid: u64, ktime_ns: u64, comm: [u8; COMM_LEN], target_arg: i64) -> (r: TraceEvent)
        ensures
            r.kind == EventKind::Ptrace.code(),
            r.pid == (pid_tgid >> 32u64) as u32,
            r.uid == uid_gid as u32,
            r.ktime_ns == ktime_ns,
            r.comm == comm,
            forall|i: int| 0 <= i < PATH_LEN ==> r.path@[i] == 0,
            r.path_len == 0,
            r.target_pid == target_arg as u32,
    {
        TraceEvent {
            kind: EventKind::Ptrace.to_u8(),
            pid: (pid_tgid >> 32u64) as u32,
            uid: uid_gid as u32,
            ktime_ns,
            comm,
            path: [0u8; PATH_LEN],
            path_len: 0,
            target_pid: target_arg as u32,
        }
    }

    /// The bytes of this record as it sits in the ring buffer of a machine
    /// of byte order `order`.
    pub fn to_bytes(&self, order: ByteOrder) -> (r: Vec<u8>)
        ensures
            r@ == record_bytes(*self, order),
    {
        let mut out: Vec<u8> = Vec::new();
        out.push(self.kind);
        out.push(0);
        out.push(0);
        out.push(0);
        push_u32(&mut out, self.pid, order);
        push_u32(&mut out, self.uid, order);
        out.push(0);
        out.push(0);
        out.push(0);
        out.push(0);
        let lo = (self.ktime_ns % 4294967296) as u32;
        let hi = (self.ktime_ns / 4294967296) as u32;
        match order {
            ByteOrder::Little => {
                push_u32(&mut out, lo, order);
                push_u32(&mut out, hi, order);
            },
            ByteOrder::Big => {
                push_u32(&mut out, hi, order);
                push_u32(&mut out, lo, order);
            },
        }
        push_bytes(&mut out, self.comm.as_slice());
        push_bytes(&mut out, self.path.as_slice());
        push_u32(&mut out, self.path_len, order);
        push_u32(&mut out, self.target_pid, order);
        assert(out@ =~= record_bytes(*self, order));
        out
    }

    /// Reads the record at the start of a ring-buffer item written on a
    /// machine of byte order `order` (see [`host_byte_order`]); an item
    /// shorter than a record yields nothing.
    pub fn from_bytes(raw: &[u8], order: ByteOrder) -> (r: Option<TraceEvent>)
        ensures
            r == decoded(raw@, order),
    {
        if raw.len() < EVENT_SIZE {
            return None;
        }
        let mut comm: [u8; COMM_LEN] = [0u8; COMM_LEN];
        let mut i: usize = 0;
        while i < COMM_LEN
            invariant
                raw@.len() >= EVENT_SIZE,
                i <= COMM_LEN,
                forall|k: int| 0 <= k < i ==> comm@[k] == raw@[24 + k],
            decreases COMM_LEN - i,
        {
            comm[i] = raw[24 + i];
            i = i + 1;
        }
        let mut path: [u8; PATH_LEN] = [0u8; PATH_LEN];
        let mut j: usize = 0;
        while j < PATH_LEN
            invariant
                raw@.len() >= EVENT_SIZE,
                j <= PATH_LEN,
                forall|k: int| 0 <= k < j ==> path@[k] == raw@[40 + k],
            decreases PATH_LEN - j,
        {
            path[j] = raw[40 + j];
            j = j + 1;
        }
        let (lo, hi) = match order {
            ByteOrder::Little => (u32_read(raw, 16, order), u32_read(raw, 20, order)),
            ByteOrder::Big => (u32_read(raw, 20, order), u32_read(raw, 16, order)),
        };
        let e = TraceEvent {
            kind: raw[0],
            pid: u32_read(raw, 4, order),
            uid: u32_read(raw, 8, order),
            ktime_ns: lo as u64 + 4294967296u64 * (hi as u64),
            comm,
            path,
            path_len: u32_read(raw, 296, order),
            target_pid: u32_read(raw, 300, order),
        };
        assert(e.comm@ =~= raw@.subrange(24, 40));
        assert(e.path@ =~= raw@.subrange(40, 296));
        assert(holds_record(raw@, e, order));
        proof {
            let c = choose|x: TraceEvent| holds_record(raw@, x, order);
            lemma_record_unique(raw@, c, e, order);
        }
        Some(e)
    }

    /// The kind this record is tagged with, if its tag is known.
    pub open spec fn event_kind(self) -> Option<EventKind> {
        EventKind::of_code(self.kind)
    }

    /// The comm name as text: the 16 comm bytes read as UTF-8 with trailing
    /// NULs removed; empty when they are not UTF-8.
    pub open spec fn comm_chars(self) -> Seq<char> {
        comm_text(self.comm@)
    }

    /// The path argument as text: its first `path_len` bytes read as UTF-8,
    /// or `<invalid utf8>` when they are not UTF-8.
    pub open spec fn path_chars(self) -> Seq<char>
        recommends
            self.path_len <= PATH_LEN,
    {
        path_text(self.path@.take(self.path_len as int))
    }

    /// The comm name as text (see [`TraceEvent::comm_chars`]).
    pub fn comm_string(&self) -> (r: String)
        ensures
            r@ == self.comm_chars(),
    {
        match utf8_str(self.comm.as_slice()) {
            Some(s) => {
                let cs = chars_of(s);
                let t = trimmed_of_nuls(cs.as_slice());
                string_of(t.as_slice())
            },
            None => String::new(),
        }
    }

    /// The path argument as text (see [`TraceEvent::path_chars`]).
    pub fn path_string(&self) -> (r: String)
        requires
            self.path_len <= PATH_LEN,
        ensures
            r@ == self.path_chars(),
    {
        let n: usize = self.path_len as usize;
        let bytes = &self.path.as_slice()[0..n];
        assert(bytes@ =~= self.path@.take(n as int));
        match utf8_str(bytes) {
            Some(s) => s.to_owned(),
            None => "<invalid utf8>".to_owned(),
        }
    }
}

/// Text of a comm buffer: UTF-8 with trailing NULs trimmed, empty when the
/// bytes are not UTF-8.
pub open spec fn comm_text(b: Seq<u8>) -> Seq<char> {
    if valid_utf8(b) {
        trim_trailing_nuls(decode_utf8(b))
    } else {
        Seq::empty()
    }
}

/// Text of a path argument: its bytes as UTF-8, or `<invalid utf8>`.
pub open spec fn path_text(b: Seq<u8>) -> Seq<char> {
    if valid_utf8(b) {
        decode_utf8(b)
    } else {
        "<invalid utf8>"@
    }
}

/// Does an `openat(2)` with these flags create a file? Only creating opens
/// are traced.
pub fn creates_file(flags: i64) -> (r: bool)
    ensures
        r == (flags & O_CREAT != 0),
{
    flags & O_CREAT != 0
}

/// Is this `ptrace(2)` request one that attaches to an existing process?
/// Only `PTRACE_ATTACH` and `PTRACE_SEIZE` are traced.
pub fn attaches_to_process(request: i64) -> (r: bool)
    ensures
        r == (request == PTRACE_ATTACH || request == PTRACE_SEIZE),
{
    request == PTRACE_ATTACH || request == PTRACE_SEIZE
}

} // verus!
