use std::collections::HashMap;

use syscall_tracer::detection::ptrace::{ptrace_verdict, ParentPidLookup, PtraceAlert, PtraceDetector};

struct FakeLookup(HashMap<u32, u32>);

impl ParentPidLookup for FakeLookup {
    fn answers(&self, pid: u32, parent: Option<u32>) -> bool {
        self.parent_pid(pid) == parent
    }

    fn parent_pid(&self, pid: u32) -> Option<u32> {
        self.0.get(&pid).copied()
    }
}

#[test]
fn flags_attach_to_unrelated_process() {
    let mut ancestry = HashMap::new();
    ancestry.insert(500, 400); // pid 500's real parent is 400
    let d = PtraceDetector::new(FakeLookup(ancestry));
    let alert = d.observe(999, 0, 500).expect("999 is not 500's parent");
    assert_eq!(alert.target_pid, 500);
}

#[test]
fn ignores_parent_tracing_own_child() {
    let mut ancestry = HashMap::new();
    ancestry.insert(500, 400);
    let d = PtraceDetector::new(FakeLookup(ancestry));
    assert!(d.observe(400, 0, 500).is_none());
}

#[test]
fn ignores_self_trace() {
    let d = PtraceDetector::new(FakeLookup(HashMap::new()));
    assert!(d.observe(100, 0, 100).is_none());
}

#[test]
fn flags_when_target_ancestry_cannot_be_resolved() {
    let d = PtraceDetector::new(FakeLookup(HashMap::new()));
    let alert = d
        .observe(999, 0, 12345)
        .expect("unresolvable ancestry should fail secure, not be ignored");
    assert_eq!(alert.target_pid, 12345);
}

#[test]
fn ptrace_verdict_cases() {
    assert_eq!(ptrace_verdict(5, 0, 5, None), None);
    assert_eq!(ptrace_verdict(5, 0, 5, Some(1)), None);
    assert_eq!(ptrace_verdict(4, 0, 5, Some(4)), None);
    assert_eq!(
        ptrace_verdict(4, 1000, 5, Some(3)),
        Some(PtraceAlert { tracer_pid: 4, tracer_uid: 1000, target_pid: 5 })
    );
    assert_eq!(
        ptrace_verdict(4, 0, 5, None),
        Some(PtraceAlert { tracer_pid: 4, tracer_uid: 0, target_pid: 5 })
    );
}
