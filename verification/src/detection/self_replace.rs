//! A process unlinking its own on-disk binary, then re-exec'ing the same
//! path within a window: the file underneath that path changed out from
//! under the running image.
use vstd::prelude::*;

use crate::event::{EventKind, Observation};
use crate::table::{elapsed, recent_paths, within, NS_PER_MS, PidTable};

verus! {

/// Least time a pid's running binary is remembered: one minute.
pub const MIN_EXE_TTL_NS: u64 = 60_000_000_000;

/// What a self-replace alert says.
pub struct SelfReplaceAlertView {
    pub pid: u32,
    pub uid: u32,
    pub path: Seq<char>,
    pub delta_ms: u64,
}

/// A self-replace alert: `pid` (running as `uid`) unlinked `path`, the
/// binary it was running, and exec'd it again `delta_ms` milliseconds
/// later.
pub struct SelfReplaceAlert {
    pub pid: u32,
    pub uid: u32,
    pub path: String,
    pub delta_ms: u64,
}

impl SelfReplaceAlert {
    pub open spec fn view_of(r: Option<SelfReplaceAlert>) -> Option<SelfReplaceAlertView> {
        match r {
            Some(a) => Some(SelfReplaceAlertView { pid: a.pid, uid: a.uid, path: a.path@, delta_ms: a.delta_ms }),
            None => None,
        }
    }
}

/// What a self-replace detector remembers per pid: the path it last exec'd
/// (with when), and a self-unlink still waiting for a re-exec (with when).
pub struct SelfReplaceState {
    pub current_exe: Map<u32, (Seq<char>, u64)>,
    pub pending_self_unlink: Map<u32, (Seq<char>, u64)>,
}

/// How long a pid's running binary is remembered: the window, but at least
/// one minute.
pub open spec fn exe_ttl(window: u64) -> u64 {
    if window >= MIN_EXE_TTL_NS {
        window
    } else {
        MIN_EXE_TTL_NS
    }
}

/// One step of the self-replace rule.
///
/// - An exec takes out the pid's pending self-unlink; if it was of this
///   same path and within the window, it alerts with the time in between
///   (whole milliseconds). The pid is then recorded as running `path` since
///   `now`, and everything older than its time to live is forgotten.
/// - An unlink of the path its pid is currently running records a pending
///   self-unlink at `now`; any other unlink changes nothing.
/// - Other events change nothing.
pub open spec fn self_replace_step(
    window: u64,
    s: SelfReplaceState,
    kind: EventKind,
    pid: u32,
    uid: u32,
    path: Seq<char>,
    now: u64,
) -> (SelfReplaceState, Option<SelfReplaceAlertView>) {
    match kind {
        EventKind::Exec => {
            let alert = match s.pending_self_unlink.get(pid) {
                Some((unlinked, t)) => if unlinked == path && within(now, t, window) {
                    Some(SelfReplaceAlertView { pid, uid, path, delta_ms: elapsed(now, t) / NS_PER_MS })
                } else {
                    None
                },
                None => None,
            };
            let next = SelfReplaceState {
                current_exe: recent_paths(s.current_exe.insert(pid, (path, now)), now, exe_ttl(window)),
                pending_self_unlink: recent_paths(s.pending_self_unlink.remove(pid), now, window),
            };
            (next, alert)
        },
        EventKind::Unlink => {
            if s.current_exe.contains_key(pid) && s.current_exe[pid].0 == path {
                (
                    SelfReplaceState {
                        current_exe: s.current_exe,
                        pending_self_unlink: s.pending_self_unlink.insert(pid, (path, now)),
                    },
                    None,
                )
            } else {
                (s, None)
            }
        },
        _ => (s, None),
    }
}

/// A process unlinking its own on-disk binary, then re-exec'ing the same
/// path within the window: the file underneath that path changed out from
/// under the running image. Used to replace a binary in place while it's
/// running, or to remove the binary from disk without stopping.
pub struct SelfReplaceDetector {
    window_ns: u64,
    // pid -> path it last exec'd, so an unlink can be checked against "is
    // this process deleting the file it's currently running as".
    current_exe: PidTable,
    // pid -> (path, ktime_ns) of a self-unlink still waiting for a re-exec.
    pending_self_unlink: PidTable,
}

impl View for SelfReplaceDetector {
    type V = SelfReplaceState;

    closed spec fn view(&self) -> SelfReplaceState {
        SelfReplaceState { current_exe: self.current_exe@, pending_self_unlink: self.pending_self_unlink@ }
    }
}

impl SelfReplaceDetector {
    /// The correlation window in nanoseconds.
    pub closed spec fn window(&self) -> u64 {
        self.window_ns
    }

    /// A detector with the given window that remembers nothing.
    pub fn new(window_ns: u64) -> (r: SelfReplaceDetector)
        ensures
            r.window() == window_ns,
            r@.current_exe == Map::<u32, (Seq<char>, u64)>::empty(),
            r@.pending_self_unlink == Map::<u32, (Seq<char>, u64)>::empty(),
    {
        SelfReplaceDetector { window_ns, current_exe: PidTable::new(), pending_self_unlink: PidTable::new() }
    }

    /// Feed one decoded event. Returns an alert if this event completes a
    /// self-unlink→re-exec pattern within the window (see
    /// [`self_replace_step`]).
    pub fn observe(&mut self, kind: EventKind, pid: u32, uid: u32, path: &str, ktime_ns: u64) -> (r: Option<SelfReplaceAlert>)
        ensures
            final(self).window() == old(self).window(),
            (final(self)@, SelfReplaceAlert::view_of(r)) == self_replace_step(
                old(self).window(),
                old(self)@,
                kind,
                pid,
                uid,
                path@,
                ktime_ns,
            ),
    {
        match kind {
            EventKind::Exec => {
                let owned = path.to_owned();
                let alert = match self.pending_self_unlink.remove(pid) {
                    Some((unlink_path, unlink_ktime)) => {
                        if unlink_path == owned {
                            let delta_ns: u64 = ktime_ns.saturating_sub(unlink_ktime);
                            if delta_ns <= self.window_ns {
                                Some(SelfReplaceAlert { pid, uid, path: unlink_path, delta_ms: delta_ns / NS_PER_MS })
                            } else {
                                None
                            }
                        } else {
                            None
                        }
                    },
                    None => None,
                };
                self.current_exe.insert(pid, owned, ktime_ns);
                self.prune(ktime_ns);
                alert
            },
            EventKind::Unlink => {
                let owned = path.to_owned();
                let is_self = match self.current_exe.path_of(pid) {
                    Some(exe_path) => *exe_path == owned,
                    None => false,
                };
                if is_self {
                    self.pending_self_unlink.insert(pid, owned, ktime_ns);
                }
                None
            },
            _ => None,
        }
    }

    /// Bound memory: forget which binary a pid is running once it's been
    /// quiet for a while (long past any plausible self-replace window).
    fn prune(&mut self, now_ns: u64)
        ensures
            final(self).window() == old(self).window(),
            final(self)@.current_exe == recent_paths(old(self)@.current_exe, now_ns, exe_ttl(old(self).window())),
            final(self)@.pending_self_unlink == recent_paths(old(self)@.pending_self_unlink, now_ns, old(self).window()),
    {
        let ttl_ns: u64 = if self.window_ns >= MIN_EXE_TTL_NS { self.window_ns } else { MIN_EXE_TTL_NS };
        self.current_exe.retain_recent(now_ns, ttl_ns);
        let window_ns: u64 = self.window_ns;
        self.pending_self_unlink.retain_recent(now_ns, window_ns);
    }
}

// ---------------------------------------------------------------------------
// Laws
// ---------------------------------------------------------------------------

/// Exec, then unlink of that same path, then a re-exec of it within the
/// window, all by one pid, alerts with the time from unlink to re-exec.
pub proof fn law_self_replace_unlink_then_reexec_alerts(
    window: u64,
    s: SelfReplaceState,
    pid: u32,
    uid: u32,
    path: Seq<char>,
    t_exec: u64,
    t_unlink: u64,
    t_reexec: u64,
)
    requires
        within(t_reexec, t_unlink, window),
    ensures
        ({
            let s1 = self_replace_step(window, s, EventKind::Exec, pid, uid, path, t_exec).0;
            let s2 = self_replace_step(window, s1, EventKind::Unlink, pid, uid, path, t_unlink).0;
            self_replace_step(window, s2, EventKind::Exec, pid, uid, path, t_reexec).1 == Some(
                SelfReplaceAlertView { pid, uid, path, delta_ms: elapsed(t_reexec, t_unlink) / NS_PER_MS },
            )
        }),
{
    let s1 = self_replace_step(window, s, EventKind::Exec, pid, uid, path, t_exec).0;
    assert(s1.current_exe.contains_key(pid));
    let s2 = self_replace_step(window, s1, EventKind::Unlink, pid, uid, path, t_unlink).0;
    assert(s2.pending_self_unlink.contains_key(pid));
}

/// An exec records what its pid now runs, and clears the pid's pending
/// self-unlink.
pub proof fn law_self_replace_exec_records_binary(
    window: u64,
    s: SelfReplaceState,
    pid: u32,
    uid: u32,
    path: Seq<char>,
    now: u64,
)
    ensures
        ({
            let next = self_replace_step(window, s, EventKind::Exec, pid, uid, path, now).0;
            &&& next.current_exe.contains_key(pid)
            &&& next.current_exe[pid] == (path, now)
            &&& !next.pending_self_unlink.contains_key(pid)
        }),
{
}

/// A re-exec with no self-unlink in between never alerts.
pub proof fn law_self_replace_plain_reexec_is_quiet(
    window: u64,
    s: SelfReplaceState,
    pid: u32,
    uid: u32,
    first: Seq<char>,
    second: Seq<char>,
    t1: u64,
    t2: u64,
)
    ensures
        ({
            let s1 = self_replace_step(window, s, EventKind::Exec, pid, uid, first, t1).0;
            self_replace_step(window, s1, EventKind::Exec, pid, uid, second, t2).1 is None
        }),
{
}

/// An unlink of anything but the path its pid is running changes nothing.
pub proof fn law_self_replace_foreign_unlink_ignored(
    window: u64,
    s: SelfReplaceState,
    pid: u32,
    uid: u32,
    path: Seq<char>,
    now: u64,
)
    requires
        !(s.current_exe.contains_key(pid) && s.current_exe[pid].0 == path),
    ensures
        self_replace_step(window, s, EventKind::Unlink, pid, uid, path, now) == (s, None::<SelfReplaceAlertView>),
{
}

/// A re-exec more than the window after the self-unlink never alerts.
pub proof fn law_self_replace_outside_window_is_quiet(
    window: u64,
    s: SelfReplaceState,
    pid: u32,
    uid: u32,
    path: Seq<char>,
    now: u64,
)
    requires
        s.pending_self_unlink.contains_key(pid),
        !within(now, s.pending_self_unlink[pid].1, window),
    ensures
        self_replace_step(window, s, EventKind::Exec, pid, uid, path, now).1 is None,
{
}

/// After an exec at `now`, every remembered binary is within its time to
/// live of `now` and every pending self-unlink within the window.
pub proof fn law_self_replace_forgets_old_state(
    window: u64,
    s: SelfReplaceState,
    pid: u32,
    uid: u32,
    path: Seq<char>,
    now: u64,
)
    ensures
        ({
            let next = self_replace_step(window, s, EventKind::Exec, pid, uid, path, now).0;
            &&& forall|p: u32| #[trigger] next.current_exe.contains_key(p) ==> within(now, next.current_exe[p].1, exe_ttl(window))
            &&& forall|p: u32| #[trigger] next.pending_self_unlink.contains_key(p) ==> within(now, next.pending_self_unlink[p].1, window)
        }),
{
}

/// Write and ptrace events neither change what is remembered nor alert.
pub proof fn law_self_replace_ignores_other_kinds(
    window: u64,
    s: SelfReplaceState,
    kind: EventKind,
    pid: u32,
    uid: u32,
    path: Seq<char>,
    now: u64,
)
    requires
        kind == EventKind::Write || kind == EventKind::Ptrace,
    ensures
        self_replace_step(window, s, kind, pid, uid, path, now) == (s, None::<SelfReplaceAlertView>),
{
}

} // verus!

verus! {

// ---------------------------------------------------------------------------
// Laws over histories
// ---------------------------------------------------------------------------

/// What is remembered after feeding a whole history of events, in order.
pub open spec fn self_replace_run(window: u64, s: SelfReplaceState, h: Seq<Observation>) -> SelfReplaceState
    decreases h.len(),
{
    if h.len() == 0 {
        s
    } else {
        let o = h.last();
        self_replace_step(window, self_replace_run(window, s, h.drop_last()), o.kind, o.pid, o.uid, o.path, o.ktime_ns).0
    }
}

/// Feeding two histories one after the other is feeding their
/// concatenation.
pub proof fn lemma_self_replace_run_concat(
    window: u64,
    s: SelfReplaceState,
    a: Seq<Observation>,
    b: Seq<Observation>,
)
    ensures
        self_replace_run(window, s, a + b) == self_replace_run(window, self_replace_run(window, s, a), b),
    decreases b.len(),
{
    if b.len() == 0 {
        assert(a + b =~= a);
    } else {
        assert((a + b).drop_last() =~= a + b.drop_last());
        lemma_self_replace_run_concat(window, s, a, b.drop_last());
    }
}

/// `o` is an exec by `pid`.
pub open spec fn is_exec_by(o: Observation, pid: u32) -> bool {
    o.kind == EventKind::Exec && o.pid == pid
}

/// `o` is an unlink of `path` by `pid`.
pub open spec fn is_unlink_of(o: Observation, pid: u32, path: Seq<char>) -> bool {
    o.kind == EventKind::Unlink && o.pid == pid && o.path == path
}

/// Between two execs of `pid`, everything remembered for `pid` is about the
/// binary it last exec'd, and without an unlink of that binary no
/// self-unlink is pending.
proof fn lemma_self_replace_tracks_binary(
    window: u64,
    s: SelfReplaceState,
    h: Seq<Observation>,
    pid: u32,
    binary: Seq<char>,
)
    requires
        s.current_exe.contains_key(pid) ==> s.current_exe[pid].0 == binary,
        s.pending_self_unlink.contains_key(pid) ==> s.pending_self_unlink[pid].0 == binary,
        forall|j: int| 0 <= j < h.len() ==> !is_exec_by(#[trigger] h[j], pid),
    ensures
        ({
            let r = self_replace_run(window, s, h);
            &&& r.current_exe.contains_key(pid) ==> r.current_exe[pid].0 == binary
            &&& r.pending_self_unlink.contains_key(pid) ==> r.pending_self_unlink[pid].0 == binary
            &&& (!s.pending_self_unlink.contains_key(pid) && forall|j: int|
                0 <= j < h.len() ==> !is_unlink_of(#[trigger] h[j], pid, binary))
                ==> !r.pending_self_unlink.contains_key(pid)
        }),
    decreases h.len(),
{
    if h.len() > 0 {
        let h0 = h.drop_last();
        assert forall|j: int| 0 <= j < h0.len() implies !is_exec_by(#[trigger] h0[j], pid) by {
            assert(h0[j] == h[j]);
        }
        lemma_self_replace_tracks_binary(window, s, h0, pid, binary);
        assert(!is_exec_by(h[h.len() - 1], pid));
        if forall|j: int| 0 <= j < h.len() ==> !is_unlink_of(#[trigger] h[j], pid, binary) {
            assert forall|j: int| 0 <= j < h0.len() implies !is_unlink_of(#[trigger] h0[j], pid, binary) by {
                assert(h0[j] == h[j]);
            }
            assert(!is_unlink_of(h[h.len() - 1], pid, binary));
        }
    }
}

/// A re-exec alerts only for an unlink of the very binary its pid was
/// running: after `pid` exec's `binary`, if nothing later unlinks `binary`
/// for it (or the re-exec is of another path), the re-exec is quiet,
/// whatever other events came in between.
pub proof fn law_self_replace_needs_unlink_of_running_binary(
    window: u64,
    s: SelfReplaceState,
    before: Seq<Observation>,
    exec: Observation,
    after: Seq<Observation>,
    uid: u32,
    path: Seq<char>,
    now: u64,
)
    requires
        exec.kind == EventKind::Exec,
        forall|j: int| 0 <= j < after.len() ==> !is_exec_by(#[trigger] after[j], exec.pid),
        path != exec.path || forall|j: int| 0 <= j < after.len() ==> !is_unlink_of(#[trigger] after[j], exec.pid, exec.path),
    ensures
        ({
            let h = before.push(exec) + after;
            self_replace_step(window, self_replace_run(window, s, h), EventKind::Exec, exec.pid, uid, path, now).1
                is None
        }),
{
    let mid = self_replace_run(window, s, before.push(exec));
    assert(before.push(exec).drop_last() =~= before);
    assert(!mid.pending_self_unlink.contains_key(exec.pid));
    lemma_self_replace_run_concat(window, s, before.push(exec), after);
    lemma_self_replace_tracks_binary(window, mid, after, exec.pid, exec.path);
}

/// While `pid` does not exec, and no event is later than `now`, the binary
/// `pid` exec'd at `t_exec` stays remembered, as long as `now` is within its
/// time to live of `t_exec`.
proof fn lemma_self_replace_keeps_binary(
    window: u64,
    s: SelfReplaceState,
    h: Seq<Observation>,
    pid: u32,
    binary: Seq<char>,
    t_exec: u64,
    now: u64,
)
    requires
        s.current_exe.contains_key(pid) && s.current_exe[pid] == (binary, t_exec),
        within(now, t_exec, exe_ttl(window)),
        forall|j: int| 0 <= j < h.len() ==> !is_exec_by(#[trigger] h[j], pid) && h[j].ktime_ns <= now,
    ensures
        ({
            let r = self_replace_run(window, s, h);
            r.current_exe.contains_key(pid) && r.current_exe[pid] == (binary, t_exec)
        }),
    decreases h.len(),
{
    if h.len() > 0 {
        let h0 = h.drop_last();
        assert forall|j: int| 0 <= j < h0.len() implies !is_exec_by(#[trigger] h0[j], pid) && h0[j].ktime_ns <= now by {
            assert(h0[j] == h[j]);
        }
        lemma_self_replace_keeps_binary(window, s, h0, pid, binary, t_exec, now);
        assert(!is_exec_by(h[h.len() - 1], pid) && h[h.len() - 1].ktime_ns <= now);
    }
}

/// After a self-unlink at `t_unlink`, while `pid` neither execs nor unlinks
/// its binary again, and no event is later than `now`, the self-unlink stays
/// pending, or is dropped only once `t_unlink` is out of the window of
/// `now`.
proof fn lemma_self_replace_keeps_unlink(
    window: u64,
    s: SelfReplaceState,
    h: Seq<Observation>,
    pid: u32,
    binary: Seq<char>,
    t_unlink: u64,
    now: u64,
)
    requires
        s.current_exe.contains_key(pid) ==> s.current_exe[pid].0 == binary,
        s.pending_self_unlink.contains_key(pid) ==> s.pending_self_unlink[pid] == (binary, t_unlink),
        !s.pending_self_unlink.contains_key(pid) ==> !within(now, t_unlink, window),
        forall|j: int|
            0 <= j < h.len() ==> !is_exec_by(#[trigger] h[j], pid) && !is_unlink_of(h[j], pid, binary)
                && h[j].ktime_ns <= now,
    ensures
        ({
            let r = self_replace_run(window, s, h);
            &&& r.current_exe.contains_key(pid) ==> r.current_exe[pid].0 == binary
            &&& r.pending_self_unlink.contains_key(pid) ==> r.pending_self_unlink[pid] == (binary, t_unlink)
            &&& !r.pending_self_unlink.contains_key(pid) ==> !within(now, t_unlink, window)
        }),
    decreases h.len(),
{
    if h.len() > 0 {
        let h0 = h.drop_last();
        assert forall|j: int| 0 <= j < h0.len() implies !is_exec_by(#[trigger] h0[j], pid) && !is_unlink_of(
            h0[j],
            pid,
            binary,
        ) && h0[j].ktime_ns <= now by {
            assert(h0[j] == h[j]);
        }
        lemma_self_replace_keeps_unlink(window, s, h0, pid, binary, t_unlink, now);
        let o = h[h.len() - 1];
        assert(!is_exec_by(o, pid) && !is_unlink_of(o, pid, binary) && o.ktime_ns <= now);
    }
}

/// Exec of a binary, later an unlink of it by the same pid, later a re-exec
/// of it at `now`: the re-exec alerts exactly when the last such unlink is
/// within the window of `now`, with the delay in milliseconds, whatever
/// other events came in between, provided the pid did not exec in between,
/// no event is later than `now`, and `now` is within the binary's time to
/// live of its exec.
pub proof fn law_self_replace_window_over_history(
    window: u64,
    s: SelfReplaceState,
    before: Seq<Observation>,
    exec: Observation,
    between: Seq<Observation>,
    unlink: Observation,
    after: Seq<Observation>,
    uid: u32,
    now: u64,
)
    requires
        exec.kind == EventKind::Exec,
        unlink.kind == EventKind::Unlink,
        unlink.pid == exec.pid,
        unlink.path == exec.path,
        unlink.ktime_ns <= now,
        within(now, exec.ktime_ns, exe_ttl(window)),
        forall|j: int| 0 <= j < between.len() ==> !is_exec_by(#[trigger] between[j], exec.pid) && between[j].ktime_ns <= now,
        forall|j: int|
            0 <= j < after.len() ==> !is_exec_by(#[trigger] after[j], exec.pid) && !is_unlink_of(
                after[j],
                exec.pid,
                exec.path,
            ) && after[j].ktime_ns <= now,
    ensures
        ({
            let h = before.push(exec) + between.push(unlink) + after;
            self_replace_step(window, self_replace_run(window, s, h), EventKind::Exec, exec.pid, uid, exec.path, now).1
                == if within(now, unlink.ktime_ns, window) {
                Some(
                    SelfReplaceAlertView {
                        pid: exec.pid,
                        uid,
                        path: exec.path,
                        delta_ms: elapsed(now, unlink.ktime_ns) / NS_PER_MS,
                    },
                )
            } else {
                None
            }
        }),
{
    let pid = exec.pid;
    let binary = exec.path;
    let s1 = self_replace_run(window, s, before.push(exec));
    assert(before.push(exec).drop_last() =~= before);
    assert(s1.current_exe.contains_key(pid) && s1.current_exe[pid] == (binary, exec.ktime_ns));
    lemma_self_replace_run_concat(window, s, before.push(exec), between);
    lemma_self_replace_keeps_binary(window, s1, between, pid, binary, exec.ktime_ns, now);
    let s2 = self_replace_run(window, s1, between);
    let s3 = self_replace_run(window, s2, seq![unlink]);
    assert(seq![unlink].drop_last() =~= Seq::<Observation>::empty());
    assert(seq![unlink].last() == unlink);
    assert(self_replace_run(window, s2, Seq::<Observation>::empty()) == s2);
    assert(s2.current_exe.contains_key(pid) && s2.current_exe[pid] == (binary, exec.ktime_ns));
    assert(s3 == self_replace_step(window, s2, unlink.kind, unlink.pid, unlink.uid, unlink.path, unlink.ktime_ns).0);
    assert(s3.current_exe == s2.current_exe);
    assert(s3.pending_self_unlink.contains_key(pid) && s3.pending_self_unlink[pid] == (binary, unlink.ktime_ns));
    lemma_self_replace_run_concat(window, s, before.push(exec) + between, seq![unlink]);
    assert(before.push(exec) + between + seq![unlink] =~= before.push(exec) + between.push(unlink));
    lemma_self_replace_run_concat(window, s, before.push(exec) + between.push(unlink), after);
    assert(before.push(exec) + between.push(unlink) + after =~= before.push(exec) + between.push(unlink) + after);
    lemma_self_replace_keeps_unlink(window, s3, after, pid, binary, unlink.ktime_ns, now);
    let r = self_replace_run(window, s3, after);
    assert(self_replace_run(window, s, before.push(exec) + between.push(unlink)) == s3);
    if r.pending_self_unlink.contains_key(pid) {
        assert(r.pending_self_unlink.get(pid) == Some((binary, unlink.ktime_ns)));
    } else {
        assert(r.pending_self_unlink.get(pid) is None);
    }
}

/// A pid's running binary is remembered for at least a minute, and at least
/// as long as the window: never shorter than either.
pub proof fn law_exe_ttl_at_least_minute_and_window(window: u64)
    ensures
        exe_ttl(window) >= MIN_EXE_TTL_NS,
        exe_ttl(window) >= window,
        exe_ttl(window) == window || exe_ttl(window) == MIN_EXE_TTL_NS,
{
}

/// What other processes do never makes the detector forget a pid's running
/// binary less than a minute after that pid exec'd it (nor, with a longer
/// window, within the window).
pub proof fn law_self_replace_binary_outlives_other_events(
    window: u64,
    s: SelfReplaceState,
    pid: u32,
    kind: EventKind,
    other: u32,
    uid: u32,
    path: Seq<char>,
    now: u64,
)
    requires
        other != pid,
        s.current_exe.contains_key(pid),
        within(now, s.current_exe[pid].1, MIN_EXE_TTL_NS) || within(now, s.current_exe[pid].1, window),
    ensures
        ({
            let next = self_replace_step(window, s, kind, other, uid, path, now).0;
            next.current_exe.contains_key(pid) && next.current_exe[pid] == s.current_exe[pid]
        }),
{
}

/// The case the minute is for: a process execs a binary, other processes
/// carry on (here one exec by another pid), and less than a minute after
/// its exec the process unlinks that binary and re-execs it within the
/// window: that alerts, with the time from unlink to re-exec.
pub proof fn law_self_replace_survives_other_execs(
    window: u64,
    s: SelfReplaceState,
    pid: u32,
    other: u32,
    uid: u32,
    path: Seq<char>,
    other_path: Seq<char>,
    t_exec: u64,
    t_other: u64,
    t_unlink: u64,
    t_reexec: u64,
)
    requires
        other != pid,
        t_exec <= t_other,
        t_other <= t_unlink,
        t_unlink <= t_reexec,
        t_other - t_exec <= MIN_EXE_TTL_NS,
        t_reexec - t_unlink <= window,
    ensures
        ({
            let s1 = self_replace_step(window, s, EventKind::Exec, pid, uid, path, t_exec).0;
            let s2 = self_replace_step(window, s1, EventKind::Exec, other, uid, other_path, t_other).0;
            let s3 = self_replace_step(window, s2, EventKind::Unlink, pid, uid, path, t_unlink).0;
            self_replace_step(window, s3, EventKind::Exec, pid, uid, path, t_reexec).1 == Some(
                SelfReplaceAlertView { pid, uid, path, delta_ms: ((t_reexec - t_unlink) / (NS_PER_MS as int)) as u64 },
            )
        }),
{
    let s1 = self_replace_step(window, s, EventKind::Exec, pid, uid, path, t_exec).0;
    assert(s1.current_exe.contains_key(pid) && s1.current_exe[pid] == (path, t_exec));
    law_self_replace_binary_outlives_other_events(window, s1, pid, EventKind::Exec, other, uid, other_path, t_other);
}

} // verus!
