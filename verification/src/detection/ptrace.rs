//! Cross-process ptrace: an attach where the tracer isn't the target's
//! parent.
use vstd::prelude::*;

verus! {

/// Resolves a pid's parent pid, so a `PTRACE_ATTACH`/`PTRACE_SEIZE` can be
/// checked against "is the tracer actually this process's parent" (the
/// ordinary debugger-launches-its-own-child pattern) rather than an
/// unrelated process reaching in. `None` means the ancestry could not be
/// resolved.
pub trait ParentPidLookup {
    /// `parent` is an answer this lookup may give when asked about `pid`.
    spec fn answers(&self, pid: u32, parent: Option<u32>) -> bool;

    /// The parent of `pid`, or `None` when it cannot be resolved.
    fn parent_pid(&self, pid: u32) -> (r: Option<u32>)
        ensures
            self.answers(pid, r),
    ;
}

/// A cross-process ptrace alert: `tracer_pid` (running as `tracer_uid`)
/// attached to `target_pid`, which is not its child.
#[derive(Clone, Copy, PartialEq, Eq, Structural, Debug)]
pub struct PtraceAlert {
    pub tracer_pid: u32,
    pub tracer_uid: u32,
    pub target_pid: u32,
}

/// The ptrace rule, given what the lookup said of the target's parent:
/// tracing oneself and a parent tracing its own child are quiet; any other
/// attach alerts, including one whose target's ancestry could not be
/// resolved (fail secure).
pub open spec fn ptrace_alert(tracer_pid: u32, tracer_uid: u32, target_pid: u32, parent: Option<u32>) -> Option<
    PtraceAlert,
> {
    if tracer_pid == target_pid || parent == Some(tracer_pid) {
        None
    } else {
        Some(PtraceAlert { tracer_pid, tracer_uid, target_pid })
    }
}

/// The ptrace rule as a function of the target's looked-up parent (see
/// [`ptrace_alert`]).
pub fn ptrace_verdict(tracer_pid: u32, tracer_uid: u32, target_pid: u32, parent: Option<u32>) -> (r: Option<
    PtraceAlert,
>)
    ensures
        r == ptrace_alert(tracer_pid, tracer_uid, target_pid, parent),
{
    if tracer_pid == target_pid {
        return None;
    }
    match parent {
        Some(ppid) if ppid == tracer_pid => None,
        _ => Some(PtraceAlert { tracer_pid, tracer_uid, target_pid }),
    }
}

/// A `PTRACE_ATTACH`/`PTRACE_SEIZE` where the tracer isn't the target's
/// parent: cross-process ptrace, the shape used for credential dumping and
/// process injection. Stateless — each attach is checked against live
/// process ancestry, not correlated against prior events.
pub struct PtraceDetector<L: ParentPidLookup> {
    lookup: L,
}

impl<L: ParentPidLookup> PtraceDetector<L> {
    /// The ancestry lookup this detector asks.
    pub closed spec fn lookup(&self) -> L {
        self.lookup
    }

    pub fn new(lookup: L) -> (r: PtraceDetector<L>)
        ensures
            r.lookup() == lookup,
    {
        PtraceDetector { lookup }
    }

    /// Call only for PTRACE_ATTACH / PTRACE_SEIZE events (the ebpf side
    /// already filters to just those requests). Tracing oneself never
    /// alerts, and the lookup is not asked; otherwise the lookup is asked
    /// for the target's parent, and the result is [`ptrace_alert`] of its
    /// answer.
    pub fn observe(&self, tracer_pid: u32, tracer_uid: u32, target_pid: u32) -> (r: Option<PtraceAlert>)
        ensures
            tracer_pid == target_pid ==> r is None,
            tracer_pid != target_pid ==> exists|parent: Option<u32>|
                self.lookup().answers(target_pid, parent) && r == ptrace_alert(
                    tracer_pid,
                    tracer_uid,
                    target_pid,
                    parent,
                ),
    {
        if tracer_pid == target_pid {
            return None;
        }
        let parent = self.lookup.parent_pid(target_pid);
        ptrace_verdict(tracer_pid, tracer_uid, target_pid, parent)
    }
}

// ---------------------------------------------------------------------------
// Laws
// ---------------------------------------------------------------------------

/// A process attaching to itself never alerts.
pub proof fn law_self_trace_is_quiet(pid: u32, uid: u32, parent: Option<u32>)
    ensures
        ptrace_alert(pid, uid, pid, parent) is None,
{
}

/// A parent attaching to its own child never alerts.
pub proof fn law_parent_tracing_child_is_quiet(parent_pid: u32, uid: u32, child: u32)
    ensures
        ptrace_alert(parent_pid, uid, child, Some(parent_pid)) is None,
{
}

/// An attach to another process whose parent is someone else, or whose
/// ancestry cannot be resolved, always alerts and names the target.
pub proof fn law_foreign_attach_alerts(tracer: u32, uid: u32, target: u32, parent: Option<u32>)
    requires
        tracer != target,
        parent != Some(tracer),
    ensures
        ptrace_alert(tracer, uid, target, parent) == Some(
            PtraceAlert { tracer_pid: tracer, tracer_uid: uid, target_pid: target },
        ),
{
}

} // verus!
