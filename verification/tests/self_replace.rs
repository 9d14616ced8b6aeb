use syscall_tracer::detection::self_replace::SelfReplaceDetector;
use syscall_tracer::EventKind;

const ONE_SEC_NS: u64 = 1_000_000_000;

#[test]
fn flags_self_unlink_then_reexec_within_window() {
    let mut d = SelfReplaceDetector::new(2 * ONE_SEC_NS);
    assert!(d.observe(EventKind::Exec, 100, 0, "/opt/agent", 0).is_none());
    assert!(d.observe(EventKind::Unlink, 100, 0, "/opt/agent", 100).is_none());
    let alert = d
        .observe(EventKind::Exec, 100, 0, "/opt/agent", ONE_SEC_NS)
        .expect("unlink->reexec of own path within window should alert");
    assert_eq!(alert.path, "/opt/agent");
}

#[test]
fn ignores_unlink_of_a_different_file() {
    let mut d = SelfReplaceDetector::new(ONE_SEC_NS);
    d.observe(EventKind::Exec, 100, 0, "/opt/agent", 0);
    d.observe(EventKind::Unlink, 100, 0, "/tmp/scratch", 100);
    assert!(d.observe(EventKind::Exec, 100, 0, "/opt/agent", 200).is_none());
}

#[test]
fn ignores_unlink_by_an_unrelated_process() {
    let mut d = SelfReplaceDetector::new(ONE_SEC_NS);
    d.observe(EventKind::Exec, 100, 0, "/opt/agent", 0);
    // pid 200 has never exec'd /opt/agent, so its unlink of that path
    // isn't a self-unlink.
    d.observe(EventKind::Unlink, 200, 0, "/opt/agent", 100);
    assert!(d.observe(EventKind::Exec, 200, 0, "/opt/agent", 200).is_none());
}

#[test]
fn ignores_reexec_outside_window() {
    let mut d = SelfReplaceDetector::new(ONE_SEC_NS);
    d.observe(EventKind::Exec, 100, 0, "/opt/agent", 0);
    d.observe(EventKind::Unlink, 100, 0, "/opt/agent", 100);
    assert!(d.observe(EventKind::Exec, 100, 0, "/opt/agent", 10 * ONE_SEC_NS).is_none());
}

#[test]
fn plain_reexec_without_unlink_does_not_alert() {
    let mut d = SelfReplaceDetector::new(ONE_SEC_NS);
    d.observe(EventKind::Exec, 100, 0, "/opt/agent", 0);
    assert!(d.observe(EventKind::Exec, 100, 0, "/opt/agent", 100).is_none());
}

#[test]
fn self_replace_reports_delay_in_ms() {
    let mut d = SelfReplaceDetector::new(2 * ONE_SEC_NS);
    d.observe(EventKind::Exec, 7, 1000, "/opt/agent", 0);
    d.observe(EventKind::Unlink, 7, 1000, "/opt/agent", 250_000_000);
    let a = d.observe(EventKind::Exec, 7, 1000, "/opt/agent", 1_250_000_000).unwrap();
    assert_eq!(a.delta_ms, 1000);
    assert_eq!(a.pid, 7);
    assert_eq!(a.uid, 1000);
}

#[test]
fn self_replace_reexec_of_other_path_clears_pending() {
    let mut d = SelfReplaceDetector::new(ONE_SEC_NS);
    d.observe(EventKind::Exec, 1, 0, "/opt/agent", 0);
    d.observe(EventKind::Unlink, 1, 0, "/opt/agent", 10);
    // exec of something else consumes the pending self-unlink
    assert!(d.observe(EventKind::Exec, 1, 0, "/bin/other", 20).is_none());
    assert!(d.observe(EventKind::Exec, 1, 0, "/opt/agent", 30).is_none());
}

#[test]
fn self_replace_ignores_write_and_ptrace() {
    let mut d = SelfReplaceDetector::new(ONE_SEC_NS);
    d.observe(EventKind::Exec, 1, 0, "/opt/agent", 0);
    assert!(d.observe(EventKind::Write, 1, 0, "/opt/agent", 5).is_none());
    assert!(d.observe(EventKind::Ptrace, 1, 0, "/opt/agent", 6).is_none());
    assert!(d.observe(EventKind::Exec, 1, 0, "/opt/agent", 7).is_none());
}

#[test]
fn self_replace_forgets_binary_after_a_minute() {
    let mut d = SelfReplaceDetector::new(ONE_SEC_NS);
    d.observe(EventKind::Exec, 1, 0, "/opt/agent", 0);
    // another process's exec 61s later prunes pid 1's record
    d.observe(EventKind::Exec, 2, 0, "/bin/true", 61 * ONE_SEC_NS);
    d.observe(EventKind::Unlink, 1, 0, "/opt/agent", 61 * ONE_SEC_NS + 1);
    assert!(d.observe(EventKind::Exec, 1, 0, "/opt/agent", 61 * ONE_SEC_NS + 2).is_none());
}
