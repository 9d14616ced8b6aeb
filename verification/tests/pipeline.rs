use std::collections::HashMap;

use syscall_tracer::detection::ptrace::ParentPidLookup;
use syscall_tracer::detection::reverse_shell::FdKind;
use syscall_tracer::detection::{
    DropperDetector, PersistenceWriteDetector, PtraceDetector, ReverseShellDetector, SelfReplaceDetector,
};
use syscall_tracer::event::{EventKind, TraceEvent, COMM_LEN, PATH_LEN};
use syscall_tracer::pipeline::{event_text_of, Detectors};

struct Parents(HashMap<u32, u32>);

impl ParentPidLookup for Parents {
    fn answers(&self, pid: u32, parent: Option<u32>) -> bool {
        self.parent_pid(pid) == parent
    }

    fn parent_pid(&self, pid: u32) -> Option<u32> {
        self.0.get(&pid).copied()
    }
}

struct Sockets(Vec<(u32, u32)>);

impl FdKind for Sockets {
    fn answers(&self, pid: u32, fd: u32, socket: bool) -> bool {
        self.is_socket(pid, fd) == socket
    }

    fn is_socket(&self, pid: u32, fd: u32) -> bool {
        self.0.contains(&(pid, fd))
    }
}

fn detectors(parents: HashMap<u32, u32>, sockets: Vec<(u32, u32)>) -> Detectors<Parents, Sockets> {
    Detectors {
        dropper: DropperDetector::new(2_000_000_000),
        self_replace: SelfReplaceDetector::new(2_000_000_000),
        ptrace: PtraceDetector::new(Parents(parents)),
        reverse_shell: ReverseShellDetector::new(Sockets(sockets)),
        persistence: PersistenceWriteDetector::new(),
    }
}

fn event(kind: EventKind, pid: u32, uid: u32, comm: &str, path: &str, t: u64) -> TraceEvent {
    let mut c = [0u8; COMM_LEN];
    c[..comm.len()].copy_from_slice(comm.as_bytes());
    let mut p = [0u8; PATH_LEN];
    p[..path.len()].copy_from_slice(path.as_bytes());
    TraceEvent::for_path(kind, (pid as u64) << 32, uid as u64, t, c, p, path.len() as u32)
}

#[test]
fn dropper_alert_line_matches_readme_sample() {
    let mut d = detectors(HashMap::new(), vec![]);
    let w = d.handle_event(&event(EventKind::Write, 4213, 1000, "python3", "/tmp/payload", 5)).unwrap();
    assert!(w.alerts.is_empty());
    assert_eq!(w.event.kind, "WRITE");
    let x = d.handle_event(&event(EventKind::Exec, 4213, 1000, "python3", "/tmp/payload", 5)).unwrap();
    assert_eq!(x.alerts.len(), 1);
    assert_eq!(x.alerts[0].rule, "dropper");
    assert_eq!(x.alerts[0].text, "pid=4213 uid=1000 wrote then exec'd /tmp/payload (0ms later)");
    assert_eq!(x.alerts[0].detail, "wrote then exec'd within 0ms");
    assert_eq!(x.alerts[0].path, "/tmp/payload");
    assert_eq!(x.alerts[0].pid, 4213);
    assert_eq!(x.alerts[0].uid, 1000);
}

#[test]
fn event_line_text_matches_format() {
    let mut d = detectors(HashMap::new(), vec![]);
    let o = d.handle_event(&event(EventKind::Exec, 42, 1000, "bash", "/usr/bin/ls", 1)).unwrap();
    assert_eq!(o.event.text, format!("{:<6} {:>8} {:>8} {:<16} {}", "EXEC", 42, 1000, "bash", "/usr/bin/ls"));
    assert_eq!(o.event.comm, "bash");
    assert_eq!(o.event.path, "/usr/bin/ls");
    assert_eq!(
        event_text_of(EventKind::Ptrace, 1, 2, "gdb", "", 77),
        format!("{:<6} {:>8} {:>8} {:<16} target_pid={}", "PTRACE", 1, 2, "gdb", 77)
    );
}

#[test]
fn unknown_kind_is_skipped() {
    let mut d = detectors(HashMap::new(), vec![]);
    let mut e = event(EventKind::Exec, 1, 0, "x", "/bin/sh", 0);
    e.kind = 9;
    assert!(d.handle_event(&e).is_none());
}

#[test]
fn ptrace_event_alert_line() {
    let mut parents = HashMap::new();
    parents.insert(500, 400);
    let mut d = detectors(parents, vec![]);
    let e = TraceEvent::for_ptrace(999u64 << 32, 0, 1, [0u8; COMM_LEN], 500);
    let o = d.handle_event(&e).unwrap();
    assert_eq!(o.event.kind, "PTRACE");
    assert_eq!(o.event.target_pid, 500);
    assert_eq!(o.event.path, "");
    assert_eq!(o.alerts.len(), 1);
    assert_eq!(o.alerts[0].rule, "ptrace");
    assert_eq!(o.alerts[0].text, "pid=999 uid=0 attached to unrelated pid 500");
    assert_eq!(o.alerts[0].detail, "pid=999 uid=0 attached to unrelated pid 500");
    assert_eq!(o.alerts[0].path, "");
    let child = TraceEvent::for_ptrace(400u64 << 32, 0, 1, [0u8; COMM_LEN], 500);
    assert!(d.handle_event(&child).unwrap().alerts.is_empty());
}

#[test]
fn reverse_shell_and_self_replace_lines() {
    let mut d = detectors(HashMap::new(), vec![(7, 1)]);
    let o = d.handle_event(&event(EventKind::Exec, 7, 1000, "bash", "/bin/bash", 0)).unwrap();
    assert_eq!(o.alerts.len(), 1);
    assert_eq!(o.alerts[0].rule, "reverse-shell");
    assert_eq!(o.alerts[0].text, "pid=7 uid=1000 /bin/bash has a socket on stdin/stdout");
    assert_eq!(o.alerts[0].detail, "pid=7 uid=1000 /bin/bash has a socket on stdin/stdout");
    d.handle_event(&event(EventKind::Unlink, 7, 1000, "bash", "/bin/bash", 1_000_000));
    let o = d.handle_event(&event(EventKind::Exec, 7, 1000, "bash", "/bin/bash", 4_000_000)).unwrap();
    assert_eq!(o.alerts.len(), 2);
    assert_eq!(o.alerts[0].rule, "self-replace");
    assert_eq!(o.alerts[0].text, "pid=7 uid=1000 unlinked then re-exec'd /bin/bash (3ms later)");
    assert_eq!(o.alerts[0].detail, "pid=7 uid=1000 unlinked then re-exec'd /bin/bash (3ms later)");
    assert_eq!(o.alerts[1].rule, "reverse-shell");
}

#[test]
fn persistence_line() {
    let mut d = detectors(HashMap::new(), vec![]);
    let o = d.handle_event(&event(EventKind::Write, 12, 1000, "sh", "/home/u/.bashrc", 0)).unwrap();
    assert_eq!(o.alerts.len(), 1);
    assert_eq!(o.alerts[0].rule, "persistence");
    assert_eq!(o.alerts[0].text, "pid=12 uid=1000 wrote /home/u/.bashrc (shell-rc)");
    assert_eq!(o.alerts[0].detail, "pid=12 uid=1000 wrote /home/u/.bashrc (shell-rc)");
    // persistence is only checked for writes
    let o = d.handle_event(&event(EventKind::Unlink, 12, 1000, "sh", "/home/u/.bashrc", 0)).unwrap();
    assert!(o.alerts.is_empty());
}

#[test]
fn dropper_then_persistence_order_on_write_exec() {
    let mut d = detectors(HashMap::new(), vec![(3, 0)]);
    // a write into cron alerts for persistence
    let o = d.handle_event(&event(EventKind::Write, 3, 0, "sh", "/etc/cron.d/sh", 0)).unwrap();
    assert_eq!(o.alerts.iter().map(|a| a.rule).collect::<Vec<_>>(), vec!["persistence"]);
    // exec'ing the written file as a shell with a socket: dropper, then reverse shell
    let o = d.handle_event(&event(EventKind::Exec, 3, 0, "sh", "/etc/cron.d/sh", 1)).unwrap();
    assert_eq!(o.alerts.iter().map(|a| a.rule).collect::<Vec<_>>(), vec!["dropper", "reverse-shell"]);
}
