//! What the tracer does with one record from the ring buffer: decode it,
//! describe it, feed it to every detection rule, and describe the alerts.
//! The caller shows and logs what comes back.
use vstd::prelude::*;

use crate::detection::dropper::{
    dropper_step, law_dropper_write_then_exec_alerts, DropperAlert, DropperAlertView, DropperDetector, WriteLog,
};
use crate::detection::persistence::{
    persistence_category, PersistenceAlert, PersistenceCategory, PersistenceWriteDetector,
};
use crate::detection::ptrace::{ptrace_alert, ParentPidLookup, PtraceAlert, PtraceDetector};
use crate::detection::reverse_shell::{
    is_shell_name, reverse_shell_alert, FdKind, ReverseShellAlert, ReverseShellAlertView, ReverseShellDetector,
};
use crate::detection::self_replace::{
    self_replace_step, SelfReplaceAlert, SelfReplaceAlertView, SelfReplaceDetector,
};
use crate::event::{EventKind, TraceEvent, PATH_LEN};
use crate::text::{
    basename, decimal, has_prefix, has_suffix, pad_left, pad_right, push_decimal, push_decimal_padded_left,
    push_padded_right, push_str,
};
use crate::table::elapsed;

verus! {

/// What an event line says.
pub struct EventLineView {
    pub kind: Seq<char>,
    pub pid: u32,
    pub uid: u32,
    pub comm: Seq<char>,
    pub path: Seq<char>,
    pub target_pid: u32,
    pub text: Seq<char>,
}

/// One decoded event, as shown in the live stream and logged.
pub struct EventLine {
    /// `EXEC`, `WRITE`, `UNLINK` or `PTRACE`.
    pub kind: &'static str,
    pub pid: u32,
    pub uid: u32,
    pub comm: String,
    pub path: String,
    pub target_pid: u32,
    /// The line shown in the live event stream.
    pub text: String,
}

impl View for EventLine {
    type V = EventLineView;

    open spec fn view(&self) -> EventLineView {
        EventLineView {
            kind: self.kind@,
            pid: self.pid,
            uid: self.uid,
            comm: self.comm@,
            path: self.path@,
            target_pid: self.target_pid,
            text: self.text@,
        }
    }
}

/// What an alert line says.
pub struct AlertLineView {
    pub rule: Seq<char>,
    pub pid: u32,
    pub uid: u32,
    pub path: Seq<char>,
    pub text: Seq<char>,
    pub detail: Seq<char>,
}

/// One alert, as shown in the alerts pane and logged.
pub struct AlertLine {
    /// `dropper`, `self-replace`, `ptrace`, `reverse-shell` or
    /// `persistence`.
    pub rule: &'static str,
    pub pid: u32,
    pub uid: u32,
    /// The path the alert is about; empty for ptrace alerts.
    pub path: String,
    /// The line shown in the alerts pane.
    pub text: String,
    /// The detail logged with the alert: a short summary for dropper
    /// alerts, the whole alert line for every other rule.
    pub detail: String,
}

impl View for AlertLine {
    type V = AlertLineView;

    open spec fn view(&self) -> AlertLineView {
        AlertLineView {
            rule: self.rule@,
            pid: self.pid,
            uid: self.uid,
            path: self.path@,
            text: self.text@,
            detail: self.detail@,
        }
    }
}

/// Everything one record gives rise to: its event line, then the alerts of
/// the rules in the order dropper, self-replace, ptrace, reverse shell,
/// persistence.
pub struct Outcome {
    pub event: EventLine,
    pub alerts: Vec<AlertLine>,
}

/// The views of a list of alert lines.
pub open spec fn alert_views(v: Seq<AlertLine>) -> Seq<AlertLineView> {
    v.map_values(|a: AlertLine| a@)
}

// ---------------------------------------------------------------------------
// Texts
// ---------------------------------------------------------------------------

/// The live-stream line of an event: kind left-aligned in 6, pid and uid
/// right-aligned in 8, comm left-aligned in 16, then the path (or, for a
/// ptrace event, `target_pid=` and the target), separated by spaces.
pub open spec fn event_text(kind: EventKind, pid: u32, uid: u32, comm: Seq<char>, path: Seq<char>, target_pid: u32) -> Seq<
    char,
> {
    pad_right(kind.label_spec(), 6) + " "@ + pad_left(decimal(pid as nat), 8) + " "@ + pad_left(
        decimal(uid as nat),
        8,
    ) + " "@ + pad_right(comm, 16) + " "@ + if kind == EventKind::Ptrace {
        "target_pid="@ + decimal(target_pid as nat)
    } else {
        path
    }
}

/// `pid=<pid> uid=<uid>`, the start of every alert text.
pub open spec fn who(pid: u32, uid: u32) -> Seq<char> {
    "pid="@ + decimal(pid as nat) + " uid="@ + decimal(uid as nat)
}

pub open spec fn dropper_lines(a: Option<DropperAlertView>) -> Seq<AlertLineView> {
    match a {
        Some(a) => seq![
            AlertLineView {
                rule: "dropper"@,
                pid: a.pid,
                uid: a.uid,
                path: a.path,
                text: who(a.pid, a.uid) + " wrote then exec'd "@ + a.path + " ("@ + decimal(a.delta_ms as nat)
                    + "ms later)"@,
                detail: "wrote then exec'd within "@ + decimal(a.delta_ms as nat) + "ms"@,
            },
        ],
        None => Seq::empty(),
    }
}

/// The self-replace alert line; the log carries it whole as the detail.
pub open spec fn self_replace_text(a: SelfReplaceAlertView) -> Seq<char> {
    who(a.pid, a.uid) + " unlinked then re-exec'd "@ + a.path + " ("@ + decimal(a.delta_ms as nat) + "ms later)"@
}

/// The ptrace alert line; the log carries it whole as the detail.
pub open spec fn ptrace_text(a: PtraceAlert) -> Seq<char> {
    who(a.tracer_pid, a.tracer_uid) + " attached to unrelated pid "@ + decimal(a.target_pid as nat)
}

/// The reverse-shell alert line; the log carries it whole as the detail.
pub open spec fn reverse_shell_text(a: ReverseShellAlertView) -> Seq<char> {
    who(a.pid, a.uid) + " "@ + a.path + " has a socket on stdin/stdout"@
}

/// The persistence alert line; the log carries it whole as the detail.
pub open spec fn persistence_text(pid: u32, uid: u32, path: Seq<char>, c: PersistenceCategory) -> Seq<char> {
    who(pid, uid) + " wrote "@ + path + " ("@ + c.label_spec() + ")"@
}

pub open spec fn self_replace_lines(a: Option<SelfReplaceAlertView>) -> Seq<AlertLineView> {
    match a {
        Some(a) => seq![
            AlertLineView {
                rule: "self-replace"@,
                pid: a.pid,
                uid: a.uid,
                path: a.path,
                text: self_replace_text(a),
                detail: self_replace_text(a),
            },
        ],
        None => Seq::empty(),
    }
}

pub open spec fn ptrace_lines(a: Option<PtraceAlert>) -> Seq<AlertLineView> {
    match a {
        Some(a) => seq![
            AlertLineView {
                rule: "ptrace"@,
                pid: a.tracer_pid,
                uid: a.tracer_uid,
                path: Seq::empty(),
                text: ptrace_text(a),
                detail: ptrace_text(a),
            },
        ],
        None => Seq::empty(),
    }
}

pub open spec fn reverse_shell_lines(a: Option<ReverseShellAlertView>) -> Seq<AlertLineView> {
    match a {
        Some(a) => seq![
            AlertLineView {
                rule: "reverse-shell"@,
                pid: a.pid,
                uid: a.uid,
                path: a.path,
                text: reverse_shell_text(a),
                detail: reverse_shell_text(a),
            },
        ],
        None => Seq::empty(),
    }
}

pub open spec fn persistence_lines(pid: u32, uid: u32, path: Seq<char>, c: Option<PersistenceCategory>) -> Seq<
    AlertLineView,
> {
    match c {
        Some(c) => seq![
            AlertLineView {
                rule: "persistence"@,
                pid,
                uid,
                path,
                text: persistence_text(pid, uid, path, c),
                detail: persistence_text(pid, uid, path, c),
            },
        ],
        None => Seq::empty(),
    }
}

/// Appends `pid=<pid> uid=<uid>`.
fn push_who(out: &mut String, pid: u32, uid: u32)
    ensures
        final(out)@ == old(out)@ + who(pid, uid),
{
    push_str(out, "pid=");
    push_decimal(out, pid as u64);
    push_str(out, " uid=");
    push_decimal(out, uid as u64);
    assert(final(out)@ =~= old(out)@ + who(pid, uid));
}

/// The live-stream line of an event (see [`event_text`]).
pub fn event_text_of(kind: EventKind, pid: u32, uid: u32, comm: &str, path: &str, target_pid: u32) -> (r: String)
    ensures
        r@ == event_text(kind, pid, uid, comm@, path@, target_pid),
{
    let mut out = String::new();
    push_padded_right(&mut out, kind.label(), 6);
    push_str(&mut out, " ");
    push_decimal_padded_left(&mut out, pid as u64, 8);
    push_str(&mut out, " ");
    push_decimal_padded_left(&mut out, uid as u64, 8);
    push_str(&mut out, " ");
    push_padded_right(&mut out, comm, 16);
    push_str(&mut out, " ");
    let ghost head = out@;
    if kind == EventKind::Ptrace {
        push_str(&mut out, "target_pid=");
        push_decimal(&mut out, target_pid as u64);
        assert(out@ =~= head + ("target_pid="@ + decimal(target_pid as nat)));
    } else {
        push_str(&mut out, path);
    }
    assert(out@ =~= event_text(kind, pid, uid, comm@, path@, target_pid));
    out
}

/// The alert line of a dropper alert.
pub fn dropper_alert_line(a: &DropperAlert) -> (r: AlertLine)
    ensures
        seq![r@] == dropper_lines(DropperAlert::view_of(Some(*a))),
{
    let mut text = String::new();
    push_who(&mut text, a.pid, a.uid);
    push_str(&mut text, " wrote then exec'd ");
    push_str(&mut text, a.path.as_str());
    push_str(&mut text, " (");
    push_decimal(&mut text, a.delta_ms);
    push_str(&mut text, "ms later)");
    let mut detail = String::new();
    push_str(&mut detail, "wrote then exec'd within ");
    push_decimal(&mut detail, a.delta_ms);
    push_str(&mut detail, "ms");
    let r = AlertLine { rule: "dropper", pid: a.pid, uid: a.uid, path: a.path.clone(), text, detail };
    assert(r@.text =~= dropper_lines(DropperAlert::view_of(Some(*a)))[0].text);
    assert(r@.detail =~= dropper_lines(DropperAlert::view_of(Some(*a)))[0].detail);
    r
}

/// The alert line of a self-replace alert.
pub fn self_replace_alert_line(a: &SelfReplaceAlert) -> (r: AlertLine)
    ensures
        seq![r@] == self_replace_lines(SelfReplaceAlert::view_of(Some(*a))),
{
    let mut text = String::new();
    push_who(&mut text, a.pid, a.uid);
    push_str(&mut text, " unlinked then re-exec'd ");
    push_str(&mut text, a.path.as_str());
    push_str(&mut text, " (");
    push_decimal(&mut text, a.delta_ms);
    push_str(&mut text, "ms later)");
    let detail = text.clone();
    let r = AlertLine { rule: "self-replace", pid: a.pid, uid: a.uid, path: a.path.clone(), text, detail };
    assert(r@.text =~= self_replace_lines(SelfReplaceAlert::view_of(Some(*a)))[0].text);
    assert(r@.detail =~= self_replace_lines(SelfReplaceAlert::view_of(Some(*a)))[0].detail);
    r
}

/// The alert line of a ptrace alert.
pub fn ptrace_alert_line(a: &PtraceAlert) -> (r: AlertLine)
    ensures
        seq![r@] == ptrace_lines(Some(*a)),
{
    let mut text = String::new();
    push_who(&mut text, a.tracer_pid, a.tracer_uid);
    push_str(&mut text, " attached to unrelated pid ");
    push_decimal(&mut text, a.target_pid as u64);
    let detail = text.clone();
    let r = AlertLine { rule: "ptrace", pid: a.tracer_pid, uid: a.tracer_uid, path: String::new(), text, detail };
    assert(r@.text =~= ptrace_lines(Some(*a))[0].text);
    assert(r@.detail =~= ptrace_lines(Some(*a))[0].detail);
    r
}

/// The alert line of a reverse-shell alert.
pub fn reverse_shell_alert_line(a: &ReverseShellAlert) -> (r: AlertLine)
    ensures
        seq![r@] == reverse_shell_lines(ReverseShellAlert::view_of(Some(*a))),
{
    let mut text = String::new();
    push_who(&mut text, a.pid, a.uid);
    push_str(&mut text, " ");
    push_str(&mut text, a.path.as_str());
    push_str(&mut text, " has a socket on stdin/stdout");
    let detail = text.clone();
    let r = AlertLine { rule: "reverse-shell", pid: a.pid, uid: a.uid, path: a.path.clone(), text, detail };
    assert(r@.detail =~= reverse_shell_lines(ReverseShellAlert::view_of(Some(*a)))[0].detail);
    assert(r@.text =~= reverse_shell_lines(ReverseShellAlert::view_of(Some(*a)))[0].text);
    r
}

/// The alert line of a persistence alert.
pub fn persistence_alert_line(a: &PersistenceAlert) -> (r: AlertLine)
    ensures
        seq![r@] == persistence_lines(a.pid, a.uid, a.path@, Some(a.category)),
{
    let mut text = String::new();
    push_who(&mut text, a.pid, a.uid);
    push_str(&mut text, " wrote ");
    push_str(&mut text, a.path.as_str());
    push_str(&mut text, " (");
    push_str(&mut text, a.category.label());
    push_str(&mut text, ")");
    let detail = text.clone();
    let r = AlertLine { rule: "persistence", pid: a.pid, uid: a.uid, path: a.path.clone(), text, detail };
    assert(r@.text =~= persistence_lines(a.pid, a.uid, a.path@, Some(a.category))[0].text);
    assert(r@.detail =~= persistence_lines(a.pid, a.uid, a.path@, Some(a.category))[0].detail);
    r
}

// ---------------------------------------------------------------------------
// The detectors together
// ---------------------------------------------------------------------------

/// Every detection rule, with its state.
pub struct Detectors<L: ParentPidLookup, F: FdKind> {
    pub dropper: DropperDetector,
    pub self_replace: SelfReplaceDetector,
    pub ptrace: PtraceDetector<L>,
    pub reverse_shell: ReverseShellDetector<F>,
    pub persistence: PersistenceWriteDetector,
}

/// The alerts one event raises, given the detectors' state before it and
/// what the ancestry lookup and fd inspector answer (`parent` for the
/// ptrace target, `stdin_socket` / `stdout_socket` for the exec'ing pid).
pub open spec fn expected_alerts(
    dropper_window: u64,
    dropper_log: Map<(u32, Seq<char>), u64>,
    self_replace_window: u64,
    self_replace_state: crate::detection::self_replace::SelfReplaceState,
    kind: EventKind,
    e: TraceEvent,
    parent: Option<u32>,
    stdin_socket: bool,
    stdout_socket: bool,
) -> Seq<AlertLineView> {
    let path = e.path_chars();
    dropper_lines(dropper_step(dropper_window, dropper_log, kind, e.pid, e.uid, path, e.ktime_ns).1)
        + self_replace_lines(
        self_replace_step(self_replace_window, self_replace_state, kind, e.pid, e.uid, path, e.ktime_ns).1,
    ) + if kind == EventKind::Ptrace {
        ptrace_lines(ptrace_alert(e.pid, e.uid, e.target_pid, parent))
    } else {
        Seq::empty()
    } + if kind == EventKind::Exec {
        reverse_shell_lines(reverse_shell_alert(e.pid, e.uid, path, stdin_socket, stdout_socket))
    } else {
        Seq::empty()
    } + if kind == EventKind::Write {
        persistence_lines(e.pid, e.uid, path, persistence_category(path))
    } else {
        Seq::empty()
    }
}

/// `parent`, `stdin_socket` and `stdout_socket` are what the detectors'
/// lookup and fd inspector answer for this event where the rules ask them:
/// the ptrace rule asks for the parent of the target (unless a process
/// traces itself), the reverse-shell rule asks whether fd 0 of the pid is a
/// socket and, when it is not, whether fd 1 is (only for a shell binary).
pub open spec fn answers_for<L: ParentPidLookup, F: FdKind>(
    d: Detectors<L, F>,
    kind: EventKind,
    e: TraceEvent,
    parent: Option<u32>,
    stdin_socket: bool,
    stdout_socket: bool,
) -> bool {
    &&& (kind == EventKind::Ptrace && e.pid != e.target_pid) ==> d.ptrace.lookup().answers(
        e.target_pid,
        parent,
    )
    &&& (kind == EventKind::Exec && is_shell_name(basename(e.path_chars()))) ==> {
        &&& d.reverse_shell.fd_kind().answers(e.pid, 0, stdin_socket)
        &&& stdin_socket || d.reverse_shell.fd_kind().answers(e.pid, 1, stdout_socket)
    }
}

fn push_line(alerts: &mut Vec<AlertLine>, line: AlertLine)
    ensures
        alert_views(final(alerts)@) == alert_views(old(alerts)@).push(line@),
{
    alerts.push(line);
    assert(alert_views(final(alerts)@) =~= alert_views(old(alerts)@).push(line@));
}

impl<L: ParentPidLookup, F: FdKind> Detectors<L, F> {
    /// Handles one record: nothing for an unknown kind tag; otherwise its
    /// event line, and the alerts of every rule fed the record's kind, pid,
    /// uid, path and time (ptrace only for ptrace events, reverse shell
    /// only for execs, persistence only for writes).
    pub fn handle_event(&mut self, e: &TraceEvent) -> (r: Option<Outcome>)
        requires
            e.event_kind() is Some ==> e.path_len <= PATH_LEN,
        ensures
            final(self).ptrace == old(self).ptrace,
            final(self).reverse_shell == old(self).reverse_shell,
            final(self).dropper.window() == old(self).dropper.window(),
            final(self).self_replace.window() == old(self).self_replace.window(),
            e.event_kind() is None ==> r is None && final(self).dropper@ == old(self).dropper@
                && final(self).self_replace@ == old(self).self_replace@,
            e.event_kind() matches Some(kind) ==> {
                &&& r is Some
                &&& r->0.event@ == (EventLineView {
                    kind: kind.label_spec(),
                    pid: e.pid,
                    uid: e.uid,
                    comm: e.comm_chars(),
                    path: e.path_chars(),
                    target_pid: e.target_pid,
                    text: event_text(kind, e.pid, e.uid, e.comm_chars(), e.path_chars(), e.target_pid),
                })
                &&& final(self).dropper@ == dropper_step(
                    old(self).dropper.window(),
                    old(self).dropper@,
                    kind,
                    e.pid,
                    e.uid,
                    e.path_chars(),
                    e.ktime_ns,
                ).0
                &&& final(self).self_replace@ == self_replace_step(
                    old(self).self_replace.window(),
                    old(self).self_replace@,
                    kind,
                    e.pid,
                    e.uid,
                    e.path_chars(),
                    e.ktime_ns,
                ).0
                &&& exists|parent: Option<u32>, stdin_socket: bool, stdout_socket: bool|
                    answers_for(*old(self), kind, *e, parent, stdin_socket, stdout_socket)
                    && alert_views(r->0.alerts@) == expected_alerts(
                        old(self).dropper.window(),
                        old(self).dropper@,
                        old(self).self_replace.window(),
                        old(self).self_replace@,
                        kind,
                        *e,
                        parent,
                        stdin_socket,
                        stdout_socket,
                    )
            },
    {
        let kind = match EventKind::from_u8(e.kind) {
            Some(k) => k,
            None => return None,
        };
        let comm = e.comm_string();
        let path = e.path_string();
        let text = event_text_of(kind, e.pid, e.uid, comm.as_str(), path.as_str(), e.target_pid);

        let ghost old_dropper = self.dropper@;
        let ghost old_self_replace = self.self_replace@;
        let mut alerts: Vec<AlertLine> = Vec::new();
        assert(alert_views(alerts@) =~= Seq::<AlertLineView>::empty());

        let dropped = self.dropper.observe(kind, e.pid, e.uid, path.as_str(), e.ktime_ns);
        if let Some(a) = &dropped {
            push_line(&mut alerts, dropper_alert_line(a));
        }
        let ghost after_dropper = alert_views(alerts@);
        assert(after_dropper =~= dropper_lines(DropperAlert::view_of(dropped)));

        let replaced = self.self_replace.observe(kind, e.pid, e.uid, path.as_str(), e.ktime_ns);
        if let Some(a) = &replaced {
            push_line(&mut alerts, self_replace_alert_line(a));
        }
        let ghost after_self = alert_views(alerts@);
        assert(after_self =~= after_dropper + self_replace_lines(SelfReplaceAlert::view_of(replaced)));

        let ghost mut parent: Option<u32> = None;
        if kind == EventKind::Ptrace {
            let traced = self.ptrace.observe(e.pid, e.uid, e.target_pid);
            proof {
                if e.pid != e.target_pid {
                    parent = choose|p: Option<u32>|
                        self.ptrace.lookup().answers(e.target_pid, p) && traced == ptrace_alert(
                            e.pid,
                            e.uid,
                            e.target_pid,
                            p,
                        );
                }
            }
            if let Some(a) = &traced {
                push_line(&mut alerts, ptrace_alert_line(a));
            }
            assert(alert_views(alerts@) =~= after_self + ptrace_lines(ptrace_alert(e.pid, e.uid, e.target_pid, parent)));
        }
        let ghost after_ptrace = alert_views(alerts@);

        let ghost mut s0 = false;
        let ghost mut s1 = false;
        if kind == EventKind::Exec {
            let shell = self.reverse_shell.observe(e.pid, e.uid, path.as_str());
            proof {
                if is_shell_name(basename(path@)) {
                    let (a, b) = choose|a: bool, b: bool|
                        self.reverse_shell.fd_kind().answers(e.pid, 0, a) && (a
                            || self.reverse_shell.fd_kind().answers(e.pid, 1, b))
                            && ReverseShellAlert::view_of(shell) == reverse_shell_alert(e.pid, e.uid, path@, a, b);
                    s0 = a;
                    s1 = b;
                }
            }
            if let Some(a) = &shell {
                push_line(&mut alerts, reverse_shell_alert_line(a));
            }
            assert(alert_views(alerts@) =~= after_ptrace + reverse_shell_lines(
                reverse_shell_alert(e.pid, e.uid, path@, s0, s1),
            ));
        }
        let ghost after_shell = alert_views(alerts@);

        if kind == EventKind::Write {
            let persisted = self.persistence.observe(e.pid, e.uid, path.as_str());
            if let Some(a) = &persisted {
                push_line(&mut alerts, persistence_alert_line(a));
            }
            assert(alert_views(alerts@) =~= after_shell + persistence_lines(
                e.pid,
                e.uid,
                path@,
                persistence_category(path@),
            ));
        }
        assert(answers_for(*old(self), kind, *e, parent, s0, s1));
        assert(alert_views(alerts@) =~= expected_alerts(
            old(self).dropper.window(),
            old_dropper,
            old(self).self_replace.window(),
            old_self_replace,
            kind,
            *e,
            parent,
            s0,
            s1,
        ));
        let event = EventLine { kind: kind.label(), pid: e.pid, uid: e.uid, comm, path, target_pid: e.target_pid, text };
        Some(Outcome { event, alerts })
    }
}

// ---------------------------------------------------------------------------
// Laws
// ---------------------------------------------------------------------------

/// `t` is what `s` ends with after `h`.
proof fn lemma_suffix_of_concat(h: Seq<char>, t: Seq<char>)
    ensures
        has_suffix(h + t, t),
{
    assert((h + t).skip((h + t).len() - t.len()) =~= t);
}

/// `h` is what `h + t` starts with.
proof fn lemma_prefix_of_concat(h: Seq<char>, t: Seq<char>)
    ensures
        has_prefix(h + t, h),
{
    assert((h + t).take(h.len() as int) =~= h);
}

/// An event line starts with its kind, padded, and a space. A line of an
/// exec, write or unlink ends with the path and does not depend on the
/// target pid; a ptrace line ends with `target_pid=` and the target, and
/// does not depend on the path.
pub proof fn law_event_line_shape(
    kind: EventKind,
    pid: u32,
    uid: u32,
    comm: Seq<char>,
    path: Seq<char>,
    other_path: Seq<char>,
    target_pid: u32,
    other_target: u32,
)
    ensures
        has_prefix(event_text(kind, pid, uid, comm, path, target_pid), pad_right(kind.label_spec(), 6) + " "@),
        kind != EventKind::Ptrace ==> has_suffix(event_text(kind, pid, uid, comm, path, target_pid), path),
        kind != EventKind::Ptrace ==> event_text(kind, pid, uid, comm, path, target_pid) == event_text(
            kind,
            pid,
            uid,
            comm,
            path,
            other_target,
        ),
        kind == EventKind::Ptrace ==> has_suffix(
            event_text(kind, pid, uid, comm, path, target_pid),
            "target_pid="@ + decimal(target_pid as nat),
        ),
        kind == EventKind::Ptrace ==> event_text(kind, pid, uid, comm, path, target_pid) == event_text(
            kind,
            pid,
            uid,
            comm,
            other_path,
            target_pid,
        ),
{
    let lead = pad_right(kind.label_spec(), 6) + " "@;
    let head = lead + pad_left(decimal(pid as nat), 8) + " "@ + pad_left(decimal(uid as nat), 8) + " "@
        + pad_right(comm, 16) + " "@;
    let tail = if kind == EventKind::Ptrace {
        "target_pid="@ + decimal(target_pid as nat)
    } else {
        path
    };
    assert(event_text(kind, pid, uid, comm, path, target_pid) =~= head + tail);
    lemma_suffix_of_concat(head, tail);
    let rest = pad_left(decimal(pid as nat), 8) + " "@ + pad_left(decimal(uid as nat), 8) + " "@ + pad_right(
        comm,
        16,
    ) + " "@ + tail;
    assert(head + tail =~= lead + rest);
    lemma_prefix_of_concat(lead, rest);
}

/// Every rule reports on its own: the alerts of one record are the
/// dropper's, then the self-replace rule's, whatever the dropper said, then
/// those of the one rule that looks at the record's kind (ptrace for a
/// ptrace event, reverse shell for an exec, persistence for a write; none
/// for an unlink).
pub proof fn law_every_rule_reports(
    dropper_window: u64,
    dropper_log: Map<(u32, Seq<char>), u64>,
    self_replace_window: u64,
    self_replace_state: crate::detection::self_replace::SelfReplaceState,
    kind: EventKind,
    e: TraceEvent,
    parent: Option<u32>,
    stdin_socket: bool,
    stdout_socket: bool,
)
    ensures
        ({
            let path = e.path_chars();
            let all = expected_alerts(
                dropper_window,
                dropper_log,
                self_replace_window,
                self_replace_state,
                kind,
                e,
                parent,
                stdin_socket,
                stdout_socket,
            );
            let d = dropper_lines(dropper_step(dropper_window, dropper_log, kind, e.pid, e.uid, path, e.ktime_ns).1);
            let r = self_replace_lines(
                self_replace_step(self_replace_window, self_replace_state, kind, e.pid, e.uid, path, e.ktime_ns).1,
            );
            let n = d.len() + r.len();
            &&& n <= all.len()
            &&& all.take(d.len() as int) == d
            &&& all.subrange(d.len() as int, n as int) == r
            &&& kind == EventKind::Ptrace ==> all.skip(n as int) == ptrace_lines(
                ptrace_alert(e.pid, e.uid, e.target_pid, parent),
            )
            &&& kind == EventKind::Exec ==> all.skip(n as int) == reverse_shell_lines(
                reverse_shell_alert(e.pid, e.uid, path, stdin_socket, stdout_socket),
            )
            &&& kind == EventKind::Write ==> all.skip(n as int) == persistence_lines(
                e.pid,
                e.uid,
                path,
                persistence_category(path),
            )
            &&& kind == EventKind::Unlink ==> all.len() == n
        }),
{
    let path = e.path_chars();
    let all = expected_alerts(
        dropper_window,
        dropper_log,
        self_replace_window,
        self_replace_state,
        kind,
        e,
        parent,
        stdin_socket,
        stdout_socket,
    );
    let d = dropper_lines(dropper_step(dropper_window, dropper_log, kind, e.pid, e.uid, path, e.ktime_ns).1);
    let r = self_replace_lines(
        self_replace_step(self_replace_window, self_replace_state, kind, e.pid, e.uid, path, e.ktime_ns).1,
    );
    let n = d.len() + r.len();
    let rest = all.skip(n as int);
    assert(all =~= d + r + rest);
    assert(all.take(d.len() as int) =~= d);
    assert(all.subrange(d.len() as int, n as int) =~= r);
}

/// Each rule's alert line names the rule, starts with `pid=<pid>
/// uid=<uid>` and reports the alert's own numbers as they are: the
/// dropper's and self-replace's milliseconds, the ptrace target, the
/// persistence category. No alert gives no line. Every rule but the
/// dropper logs its whole line as the detail.
pub proof fn law_alert_line_shapes(
    d: DropperAlertView,
    s: SelfReplaceAlertView,
    p: PtraceAlert,
    r: ReverseShellAlertView,
    pid: u32,
    uid: u32,
    path: Seq<char>,
    c: PersistenceCategory,
)
    ensures
        dropper_lines(None).len() == 0,
        self_replace_lines(None).len() == 0,
        ptrace_lines(None).len() == 0,
        reverse_shell_lines(None).len() == 0,
        persistence_lines(pid, uid, path, None).len() == 0,
        dropper_lines(Some(d)).len() == 1,
        dropper_lines(Some(d))[0].rule == "dropper"@,
        has_prefix(dropper_lines(Some(d))[0].text, who(d.pid, d.uid)),
        has_suffix(dropper_lines(Some(d))[0].text, " ("@ + decimal(d.delta_ms as nat) + "ms later)"@),
        has_suffix(dropper_lines(Some(d))[0].detail, " "@ + decimal(d.delta_ms as nat) + "ms"@),
        self_replace_lines(Some(s)).len() == 1,
        self_replace_lines(Some(s))[0].rule == "self-replace"@,
        has_prefix(self_replace_lines(Some(s))[0].text, who(s.pid, s.uid)),
        has_suffix(self_replace_lines(Some(s))[0].text, " ("@ + decimal(s.delta_ms as nat) + "ms later)"@),
        self_replace_lines(Some(s))[0].detail == self_replace_lines(Some(s))[0].text,
        ptrace_lines(Some(p)).len() == 1,
        ptrace_lines(Some(p))[0].rule == "ptrace"@,
        has_prefix(ptrace_lines(Some(p))[0].text, who(p.tracer_pid, p.tracer_uid)),
        has_suffix(ptrace_lines(Some(p))[0].text, " pid "@ + decimal(p.target_pid as nat)),
        ptrace_lines(Some(p))[0].detail == ptrace_lines(Some(p))[0].text,
        reverse_shell_lines(Some(r)).len() == 1,
        reverse_shell_lines(Some(r))[0].rule == "reverse-shell"@,
        has_prefix(reverse_shell_lines(Some(r))[0].text, who(r.pid, r.uid) + " "@ + r.path),
        reverse_shell_lines(Some(r))[0].detail == reverse_shell_lines(Some(r))[0].text,
        persistence_lines(pid, uid, path, Some(c)).len() == 1,
        persistence_lines(pid, uid, path, Some(c))[0].rule == "persistence"@,
        has_prefix(persistence_lines(pid, uid, path, Some(c))[0].text, who(pid, uid)),
        has_suffix(persistence_lines(pid, uid, path, Some(c))[0].text, " ("@ + c.label_spec() + ")"@),
        persistence_lines(pid, uid, path, Some(c))[0].detail == persistence_lines(pid, uid, path, Some(c))[0].text,
{
    let dm = decimal(d.delta_ms as nat);
    let dt = dropper_lines(Some(d))[0].text;
    assert(dt =~= who(d.pid, d.uid) + (" wrote then exec'd "@ + d.path + " ("@ + dm + "ms later)"@));
    lemma_prefix_of_concat(who(d.pid, d.uid), " wrote then exec'd "@ + d.path + " ("@ + dm + "ms later)"@);
    assert(dt =~= (who(d.pid, d.uid) + " wrote then exec'd "@ + d.path) + (" ("@ + dm + "ms later)"@));
    lemma_suffix_of_concat(who(d.pid, d.uid) + " wrote then exec'd "@ + d.path, " ("@ + dm + "ms later)"@);
    reveal_strlit("wrote then exec'd within ");
    reveal_strlit(" ");
    reveal_strlit("ms");
    let dd = dropper_lines(Some(d))[0].detail;
    assert(dd =~= "wrote then exec'd within"@ + (" "@ + dm + "ms"@)) by {
        reveal_strlit("wrote then exec'd within");
    }
    lemma_suffix_of_concat("wrote then exec'd within"@, " "@ + dm + "ms"@);

    let sm = decimal(s.delta_ms as nat);
    let st = self_replace_lines(Some(s))[0].text;
    assert(st =~= who(s.pid, s.uid) + (" unlinked then re-exec'd "@ + s.path + " ("@ + sm + "ms later)"@));
    lemma_prefix_of_concat(who(s.pid, s.uid), " unlinked then re-exec'd "@ + s.path + " ("@ + sm + "ms later)"@);
    assert(st =~= (who(s.pid, s.uid) + " unlinked then re-exec'd "@ + s.path) + (" ("@ + sm + "ms later)"@));
    lemma_suffix_of_concat(who(s.pid, s.uid) + " unlinked then re-exec'd "@ + s.path, " ("@ + sm + "ms later)"@);

    let pt = ptrace_lines(Some(p))[0].text;
    let pd = decimal(p.target_pid as nat);
    assert(pt =~= who(p.tracer_pid, p.tracer_uid) + (" attached to unrelated pid "@ + pd));
    lemma_prefix_of_concat(who(p.tracer_pid, p.tracer_uid), " attached to unrelated pid "@ + pd);
    assert(pt =~= (who(p.tracer_pid, p.tracer_uid) + " attached to unrelated"@) + (" pid "@ + pd)) by {
        reveal_strlit(" attached to unrelated pid ");
        reveal_strlit(" attached to unrelated");
        reveal_strlit(" pid ");
    }
    lemma_suffix_of_concat(who(p.tracer_pid, p.tracer_uid) + " attached to unrelated"@, " pid "@ + pd);

    let rt = reverse_shell_lines(Some(r))[0].text;
    assert(rt =~= (who(r.pid, r.uid) + " "@ + r.path) + " has a socket on stdin/stdout"@);
    lemma_prefix_of_concat(who(r.pid, r.uid) + " "@ + r.path, " has a socket on stdin/stdout"@);

    let ct = persistence_lines(pid, uid, path, Some(c))[0].text;
    assert(ct =~= who(pid, uid) + (" wrote "@ + path + " ("@ + c.label_spec() + ")"@));
    lemma_prefix_of_concat(who(pid, uid), " wrote "@ + path + " ("@ + c.label_spec() + ")"@);
    assert(ct =~= (who(pid, uid) + " wrote "@ + path) + (" ("@ + c.label_spec() + ")"@));
    lemma_suffix_of_concat(who(pid, uid) + " wrote "@ + path, " ("@ + c.label_spec() + ")"@);
}

/// A write followed by an exec of the same path by the same pid within the
/// dropper window gives one dropper line, which reports the whole
/// milliseconds between the two events, in its text and in its detail.
pub proof fn law_dropper_line_reports_delay(
    window: u64,
    log: WriteLog,
    pid: u32,
    write_uid: u32,
    exec_uid: u32,
    path: Seq<char>,
    t_write: u64,
    t_exec: u64,
)
    requires
        t_write <= t_exec,
        t_exec - t_write <= window,
    ensures
        ({
            let after_write = dropper_step(window, log, EventKind::Write, pid, write_uid, path, t_write).0;
            let lines = dropper_lines(dropper_step(window, after_write, EventKind::Exec, pid, exec_uid, path, t_exec).1);
            let ms = decimal(((t_exec - t_write) / 1_000_000int) as nat);
            &&& lines.len() == 1
            &&& lines[0].text == who(pid, exec_uid) + " wrote then exec'd "@ + path + " ("@ + ms + "ms later)"@
            &&& lines[0].detail == "wrote then exec'd within "@ + ms + "ms"@
        }),
{
    law_dropper_write_then_exec_alerts(window, log, pid, write_uid, exec_uid, path, t_write, t_exec);
    assert(elapsed(t_exec, t_write) == t_exec - t_write);
}

} // verus!
