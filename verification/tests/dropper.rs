use syscall_tracer::detection::dropper::DropperDetector;
use syscall_tracer::EventKind;

const ONE_SEC_NS: u64 = 1_000_000_000;

#[test]
fn flags_write_then_exec_within_window() {
    let mut d = DropperDetector::new(2 * ONE_SEC_NS);
    assert!(d.observe(EventKind::Write, 100, 0, "/tmp/x", 0).is_none());
    let alert = d
        .observe(EventKind::Exec, 100, 0, "/tmp/x", ONE_SEC_NS / 2)
        .expect("write->exec within window should alert");
    assert_eq!(alert.delta_ms, 500);
    assert_eq!(alert.path, "/tmp/x");
}

#[test]
fn ignores_exec_outside_window() {
    let mut d = DropperDetector::new(ONE_SEC_NS);
    d.observe(EventKind::Write, 100, 0, "/tmp/x", 0);
    assert!(d.observe(EventKind::Exec, 100, 0, "/tmp/x", 5 * ONE_SEC_NS).is_none());
}

#[test]
fn ignores_exec_of_a_path_never_written() {
    let mut d = DropperDetector::new(ONE_SEC_NS);
    assert!(d.observe(EventKind::Exec, 100, 0, "/usr/bin/ls", 0).is_none());
}

#[test]
fn does_not_correlate_across_pids() {
    let mut d = DropperDetector::new(ONE_SEC_NS);
    d.observe(EventKind::Write, 100, 0, "/tmp/x", 0);
    assert!(d.observe(EventKind::Exec, 200, 0, "/tmp/x", 100).is_none());
}

#[test]
fn fires_once_per_write() {
    let mut d = DropperDetector::new(ONE_SEC_NS);
    d.observe(EventKind::Write, 100, 0, "/tmp/x", 0);
    assert!(d.observe(EventKind::Exec, 100, 0, "/tmp/x", 100).is_some());
    assert!(d.observe(EventKind::Exec, 100, 0, "/tmp/x", 200).is_none());
}

#[test]
fn dropper_alert_carries_exec_uid_and_pid() {
    let mut d = DropperDetector::new(2 * ONE_SEC_NS);
    d.observe(EventKind::Write, 4213, 1000, "/tmp/payload", 10);
    let a = d.observe(EventKind::Exec, 4213, 1000, "/tmp/payload", 10).unwrap();
    assert_eq!(a.pid, 4213);
    assert_eq!(a.uid, 1000);
    assert_eq!(a.delta_ms, 0);
}

#[test]
fn dropper_exec_exactly_at_window_edge_alerts() {
    let mut d = DropperDetector::new(ONE_SEC_NS);
    d.observe(EventKind::Write, 1, 0, "/a", 0);
    let a = d.observe(EventKind::Exec, 1, 0, "/a", ONE_SEC_NS).unwrap();
    assert_eq!(a.delta_ms, 1000);
    d.observe(EventKind::Write, 1, 0, "/a", 0);
    assert!(d.observe(EventKind::Exec, 1, 0, "/a", ONE_SEC_NS + 1).is_none());
}

#[test]
fn dropper_exec_before_write_time_counts_as_zero_delay() {
    let mut d = DropperDetector::new(ONE_SEC_NS);
    d.observe(EventKind::Write, 1, 0, "/a", 5 * ONE_SEC_NS);
    let a = d.observe(EventKind::Exec, 1, 0, "/a", ONE_SEC_NS).unwrap();
    assert_eq!(a.delta_ms, 0);
}

#[test]
fn dropper_old_writes_are_pruned_by_later_writes() {
    let mut d = DropperDetector::new(ONE_SEC_NS);
    d.observe(EventKind::Write, 1, 0, "/old", 0);
    // a later write by anyone prunes the stale record
    d.observe(EventKind::Write, 2, 0, "/new", 10 * ONE_SEC_NS);
    // the stale record is gone even though this exec's own delay check uses now
    assert!(d.observe(EventKind::Exec, 1, 0, "/old", 0).is_none());
}

#[test]
fn dropper_rewrite_refreshes_time() {
    let mut d = DropperDetector::new(ONE_SEC_NS);
    d.observe(EventKind::Write, 1, 0, "/a", 0);
    d.observe(EventKind::Write, 1, 0, "/a", 3 * ONE_SEC_NS);
    let a = d.observe(EventKind::Exec, 1, 0, "/a", 3 * ONE_SEC_NS + 2_000_000).unwrap();
    assert_eq!(a.delta_ms, 2);
}

#[test]
fn dropper_ignores_unlink_and_ptrace() {
    let mut d = DropperDetector::new(ONE_SEC_NS);
    d.observe(EventKind::Write, 1, 0, "/a", 0);
    assert!(d.observe(EventKind::Unlink, 1, 0, "/a", 1).is_none());
    assert!(d.observe(EventKind::Ptrace, 1, 0, "/a", 2).is_none());
    assert!(d.observe(EventKind::Exec, 1, 0, "/a", 3).is_some());
}
