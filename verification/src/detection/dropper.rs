//! Write→exec of the same path by the same pid within a window: something
//! was written to disk and immediately run. Classic dropper shape.
use vstd::prelude::*;

use crate::event::{EventKind, Observation};
use crate::table::{elapsed, recent_writes, within, NS_PER_MS, WriteTable};

verus! {

/// What a dropper alert says.
pub struct DropperAlertView {
    pub pid: u32,
    pub uid: u32,
    pub path: Seq<char>,
    pub delta_ms: u64,
}

/// A dropper alert: `pid` (running as `uid`) exec'd `path`, which it had
/// created `delta_ms` milliseconds earlier.
pub struct DropperAlert {
    pub pid: u32,
    pub uid: u32,
    pub path: String,
    pub delta_ms: u64,
}

impl DropperAlert {
    pub open spec fn view_of(r: Option<DropperAlert>) -> Option<DropperAlertView> {
        match r {
            Some(a) => Some(DropperAlertView { pid: a.pid, uid: a.uid, path: a.path@, delta_ms: a.delta_ms }),
            None => None,
        }
    }
}

/// The creating writes a dropper detector remembers: when each
/// `(pid, path)` was last written.
pub type WriteLog = Map<(u32, Seq<char>), u64>;

/// One step of the dropper rule: the remembered writes after an event, and
/// the alert it raises.
///
/// - A write remembers `(pid, path)` at `now`, then forgets every write
///   older than the window.
/// - An exec takes out `(pid, path)`; if it was written within the window,
///   it alerts with the time in between (whole milliseconds).
/// - Other events change nothing.
pub open spec fn dropper_step(
    window: u64,
    log: WriteLog,
    kind: EventKind,
    pid: u32,
    uid: u32,
    path: Seq<char>,
    now: u64,
) -> (WriteLog, Option<DropperAlertView>) {
    match kind {
        EventKind::Write => (recent_writes(log.insert((pid, path), now), now, window), None),
        EventKind::Exec => (
            log.remove((pid, path)),
            match log.get((pid, path)) {
                Some(t) => if within(now, t, window) {
                    Some(DropperAlertView { pid, uid, path, delta_ms: elapsed(now, t) / NS_PER_MS })
                } else {
                    None
                },
                None => None,
            },
        ),
        _ => (log, None),
    }
}

/// Write→exec of the same path by the same pid, within the window:
/// something was written to disk and immediately run. Classic dropper
/// shape.
pub struct DropperDetector {
    window_ns: u64,
    recent_writes: WriteTable,
}

impl View for DropperDetector {
    type V = WriteLog;

    closed spec fn view(&self) -> WriteLog {
        self.recent_writes@
    }
}

impl DropperDetector {
    /// The correlation window in nanoseconds.
    pub closed spec fn window(&self) -> u64 {
        self.window_ns
    }

    /// A detector with the given window that remembers no write.
    pub fn new(window_ns: u64) -> (r: DropperDetector)
        ensures
            r.window() == window_ns,
            r@ == Map::<(u32, Seq<char>), u64>::empty(),
    {
        DropperDetector { window_ns, recent_writes: WriteTable::new() }
    }

    /// Feed one decoded event. Returns an alert if this event completes a
    /// write→exec pattern within the window (see [`dropper_step`]).
    pub fn observe(&mut self, kind: EventKind, pid: u32, uid: u32, path: &str, ktime_ns: u64) -> (r: Option<DropperAlert>)
        ensures
            final(self).window() == old(self).window(),
            (final(self)@, DropperAlert::view_of(r)) == dropper_step(
                old(self).window(),
                old(self)@,
                kind,
                pid,
                uid,
                path@,
                ktime_ns,
            ),
    {
        match kind {
            EventKind::Write => {
                self.recent_writes.insert(pid, path.to_owned(), ktime_ns);
                self.prune(ktime_ns);
                None
            },
            EventKind::Exec => {
                let key = path.to_owned();
                match self.recent_writes.remove(pid, &key) {
                    None => None,
                    Some(write_ktime) => {
                        let delta_ns: u64 = ktime_ns.saturating_sub(write_ktime);
                        if delta_ns <= self.window_ns {
                            Some(DropperAlert { pid, uid, path: key, delta_ms: delta_ns / NS_PER_MS })
                        } else {
                            None
                        }
                    },
                }
            },
            _ => None,
        }
    }

    /// Drop write records older than the window so a pid/path that's never
    /// exec'd doesn't stay resident forever.
    fn prune(&mut self, now_ns: u64)
        ensures
            final(self).window() == old(self).window(),
            final(self)@ == recent_writes(old(self)@, now_ns, old(self).window()),
    {
        let window_ns: u64 = self.window_ns;
        self.recent_writes.retain_recent(now_ns, window_ns);
    }
}

// ---------------------------------------------------------------------------
// Laws
// ---------------------------------------------------------------------------

/// A write followed by an exec of the same path by the same pid within the
/// window alerts, reporting the time between them in milliseconds.
pub proof fn law_dropper_write_then_exec_alerts(
    window: u64,
    log: WriteLog,
    pid: u32,
    write_uid: u32,
    exec_uid: u32,
    path: Seq<char>,
    t_write: u64,
    t_exec: u64,
)
    requires
        within(t_exec, t_write, window),
    ensures
        ({
            let after_write = dropper_step(window, log, EventKind::Write, pid, write_uid, path, t_write).0;
            dropper_step(window, after_write, EventKind::Exec, pid, exec_uid, path, t_exec).1
                == Some(DropperAlertView {
                pid,
                uid: exec_uid,
                path,
                delta_ms: elapsed(t_exec, t_write) / NS_PER_MS,
            })
        }),
{
    let after_write = dropper_step(window, log, EventKind::Write, pid, write_uid, path, t_write).0;
    assert(after_write.contains_key((pid, path)));
}

/// An exec alerts only for a path that the same pid wrote earlier and that
/// is still remembered; an exec outside the window never alerts.
pub proof fn law_dropper_exec_needs_own_recent_write(
    window: u64,
    log: WriteLog,
    pid: u32,
    uid: u32,
    path: Seq<char>,
    now: u64,
)
    ensures
        dropper_step(window, log, EventKind::Exec, pid, uid, path, now).1 is Some ==> log.contains_key(
            (pid, path),
        ) && within(now, log[(pid, path)], window),
{
}

/// A write by one pid is never correlated with an exec by another pid.
pub proof fn law_dropper_pids_independent(
    window: u64,
    log: WriteLog,
    writer: u32,
    execer: u32,
    uid: u32,
    path: Seq<char>,
    t_write: u64,
    t_exec: u64,
)
    requires
        writer != execer,
        !log.contains_key((execer, path)),
    ensures
        ({
            let after_write = dropper_step(window, log, EventKind::Write, writer, uid, path, t_write).0;
            dropper_step(window, after_write, EventKind::Exec, execer, uid, path, t_exec).1 is None
        }),
{
}

/// An exec consumes the write it matches: a second exec of the same path
/// by the same pid, with no write in between, never alerts.
pub proof fn law_dropper_fires_once_per_write(
    window: u64,
    log: WriteLog,
    pid: u32,
    uid: u32,
    path: Seq<char>,
    t1: u64,
    t2: u64,
)
    ensures
        ({
            let after_exec = dropper_step(window, log, EventKind::Exec, pid, uid, path, t1).0;
            dropper_step(window, after_exec, EventKind::Exec, pid, uid, path, t2).1 is None
        }),
{
}

/// After a write at `now`, every remembered write is within the window of
/// `now`: nothing stays resident past the window.
pub proof fn law_dropper_forgets_old_writes(
    window: u64,
    log: WriteLog,
    pid: u32,
    uid: u32,
    path: Seq<char>,
    now: u64,
)
    ensures
        ({
            let after = dropper_step(window, log, EventKind::Write, pid, uid, path, now).0;
            forall|k: (u32, Seq<char>)| #[trigger] after.contains_key(k) ==> within(now, after[k], window)
        }),
{
}

/// Unlink and ptrace events neither change what is remembered nor alert.
pub proof fn law_dropper_ignores_other_kinds(
    window: u64,
    log: WriteLog,
    kind: EventKind,
    pid: u32,
    uid: u32,
    path: Seq<char>,
    now: u64,
)
    requires
        kind == EventKind::Unlink || kind == EventKind::Ptrace,
    ensures
        dropper_step(window, log, kind, pid, uid, path, now) == (log, None::<DropperAlertView>),
{
}

} // verus!

verus! {

// ---------------------------------------------------------------------------
// Laws over histories
// ---------------------------------------------------------------------------

/// The writes remembered after feeding a whole history of events, in order.
pub open spec fn dropper_run(window: u64, log: WriteLog, h: Seq<Observation>) -> WriteLog
    decreases h.len(),
{
    if h.len() == 0 {
        log
    } else {
        let o = h.last();
        dropper_step(window, dropper_run(window, log, h.drop_last()), o.kind, o.pid, o.uid, o.path, o.ktime_ns).0
    }
}

/// Feeding two histories one after the other is feeding their
/// concatenation.
pub proof fn lemma_dropper_run_concat(window: u64, log: WriteLog, a: Seq<Observation>, b: Seq<Observation>)
    ensures
        dropper_run(window, log, a + b) == dropper_run(window, dropper_run(window, log, a), b),
    decreases b.len(),
{
    if b.len() == 0 {
        assert(a + b =~= a);
    } else {
        assert((a + b).drop_last() =~= a + b.drop_last());
        lemma_dropper_run_concat(window, log, a, b.drop_last());
    }
}

/// `o` is a creating write of `path` by `pid`.
pub open spec fn is_write_of(o: Observation, pid: u32, path: Seq<char>) -> bool {
    o.kind == EventKind::Write && o.pid == pid && o.path == path
}

/// `o` is an exec of `path` by `pid`.
pub open spec fn is_exec_of(o: Observation, pid: u32, path: Seq<char>) -> bool {
    o.kind == EventKind::Exec && o.pid == pid && o.path == path
}

/// A `(pid, path)` that is not remembered stays forgotten through any
/// history in which `pid` never writes `path`; an exec of it then never
/// alerts.
pub proof fn law_dropper_unwritten_never_alerts(
    window: u64,
    log: WriteLog,
    h: Seq<Observation>,
    pid: u32,
    uid: u32,
    path: Seq<char>,
    now: u64,
)
    requires
        !log.contains_key((pid, path)),
        forall|j: int| 0 <= j < h.len() ==> !is_write_of(#[trigger] h[j], pid, path),
    ensures
        !dropper_run(window, log, h).contains_key((pid, path)),
        dropper_step(window, dropper_run(window, log, h), EventKind::Exec, pid, uid, path, now).1 is None,
    decreases h.len(),
{
    if h.len() > 0 {
        assert forall|j: int| 0 <= j < h.drop_last().len() implies !is_write_of(#[trigger] h.drop_last()[j], pid, path) by {
            assert(h.drop_last()[j] == h[j]);
        }
        law_dropper_unwritten_never_alerts(window, log, h.drop_last(), pid, uid, path, now);
        assert(!is_write_of(h[h.len() - 1], pid, path));
    }
}

/// A write alerts at most once: after an exec of `(pid, path)`, whatever it
/// returned, no later exec of it alerts until `pid` writes `path` again,
/// whatever other events come in between.
pub proof fn law_dropper_fires_once_over_history(
    window: u64,
    log: WriteLog,
    before: Seq<Observation>,
    exec: Observation,
    after: Seq<Observation>,
    uid: u32,
    now: u64,
)
    requires
        exec.kind == EventKind::Exec,
        forall|j: int| 0 <= j < after.len() ==> !is_write_of(#[trigger] after[j], exec.pid, exec.path),
    ensures
        ({
            let h = before.push(exec) + after;
            dropper_step(window, dropper_run(window, log, h), EventKind::Exec, exec.pid, uid, exec.path, now).1
                is None
        }),
{
    let mid = dropper_run(window, log, before.push(exec));
    assert(before.push(exec).drop_last() =~= before);
    assert(!mid.contains_key((exec.pid, exec.path)));
    lemma_dropper_run_concat(window, log, before.push(exec), after);
    law_dropper_unwritten_never_alerts(window, mid, after, exec.pid, uid, exec.path, now);
}

/// An exec of `path` by `pid` at `now` alerts exactly when `pid`'s last
/// write of `path`, at `t_write`, is within the window of `now`, with the
/// delay in milliseconds, whatever other events came in between, provided
/// none of them came later than `now` and none was an exec or a write of
/// that `(pid, path)`.
pub proof fn law_dropper_window_over_history(
    window: u64,
    log: WriteLog,
    before: Seq<Observation>,
    write: Observation,
    after: Seq<Observation>,
    uid: u32,
    now: u64,
)
    requires
        write.kind == EventKind::Write,
        forall|j: int| 0 <= j < after.len() ==> !is_write_of(#[trigger] after[j], write.pid, write.path)
            && !is_exec_of(after[j], write.pid, write.path) && after[j].ktime_ns <= now,
    ensures
        ({
            let h = before.push(write) + after;
            dropper_step(window, dropper_run(window, log, h), EventKind::Exec, write.pid, uid, write.path, now).1
                == if within(now, write.ktime_ns, window) {
                Some(
                    DropperAlertView {
                        pid: write.pid,
                        uid,
                        path: write.path,
                        delta_ms: elapsed(now, write.ktime_ns) / NS_PER_MS,
                    },
                )
            } else {
                None
            }
        }),
{
    let key = (write.pid, write.path);
    let mid = dropper_run(window, log, before.push(write));
    assert(before.push(write).drop_last() =~= before);
    assert(mid.contains_key(key) && mid[key] == write.ktime_ns);
    lemma_dropper_run_concat(window, log, before.push(write), after);
    lemma_dropper_keeps_write(window, mid, after, key, write.ktime_ns, now);
    let m = dropper_run(window, mid, after);
    if m.contains_key(key) {
        assert(m.get(key) == Some(write.ktime_ns));
    } else {
        assert(m.get(key) is None);
    }
}

/// While neither an exec nor a write of `key` comes, and no event is later
/// than `now`, `key` stays remembered at `t`, or is forgotten only once `t`
/// is out of the window of `now`.
proof fn lemma_dropper_keeps_write(
    window: u64,
    log: WriteLog,
    h: Seq<Observation>,
    key: (u32, Seq<char>),
    t: u64,
    now: u64,
)
    requires
        log.contains_key(key) && log[key] == t,
        forall|j: int| 0 <= j < h.len() ==> !is_write_of(#[trigger] h[j], key.0, key.1) && !is_exec_of(h[j], key.0, key.1)
            && h[j].ktime_ns <= now,
    ensures
        ({
            let m = dropper_run(window, log, h);
            &&& m.contains_key(key) ==> m[key] == t
            &&& !m.contains_key(key) ==> !within(now, t, window)
        }),
    decreases h.len(),
{
    if h.len() > 0 {
        let h0 = h.drop_last();
        assert forall|j: int| 0 <= j < h0.len() implies !is_write_of(#[trigger] h0[j], key.0, key.1) && !is_exec_of(
            h0[j],
            key.0,
            key.1,
        ) && h0[j].ktime_ns <= now by {
            assert(h0[j] == h[j]);
        }
        lemma_dropper_keeps_write(window, log, h0, key, t, now);
        let o = h[h.len() - 1];
        assert(!is_write_of(o, key.0, key.1) && !is_exec_of(o, key.0, key.1) && o.ktime_ns <= now);
    }
}

} // verus!
