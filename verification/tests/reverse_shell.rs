use std::collections::HashMap;

use syscall_tracer::detection::reverse_shell::{is_shell_path, reverse_shell_verdict, FdKind, ReverseShellDetector};

struct FakeFdKind(HashMap<(u32, u32), bool>);

impl FdKind for FakeFdKind {
    fn answers(&self, pid: u32, fd: u32, socket: bool) -> bool {
        self.is_socket(pid, fd) == socket
    }

    fn is_socket(&self, pid: u32, fd: u32) -> bool {
        self.0.get(&(pid, fd)).copied().unwrap_or(false)
    }
}

#[test]
fn flags_shell_with_socket_stdin() {
    let mut fds = HashMap::new();
    fds.insert((100, 0), true);
    let d = ReverseShellDetector::new(FakeFdKind(fds));
    let alert = d.observe(100, 0, "/bin/bash").expect("socket stdin on a shell should alert");
    assert_eq!(alert.pid, 100);
    assert_eq!(alert.path, "/bin/bash");
}

#[test]
fn flags_shell_with_socket_stdout() {
    let mut fds = HashMap::new();
    fds.insert((100, 1), true);
    let d = ReverseShellDetector::new(FakeFdKind(fds));
    assert!(d.observe(100, 0, "/bin/sh").is_some());
}

#[test]
fn ignores_shell_with_ordinary_fds() {
    let d = ReverseShellDetector::new(FakeFdKind(HashMap::new()));
    assert!(d.observe(100, 0, "/bin/bash").is_none());
}

#[test]
fn ignores_non_shell_even_with_socket_stdin() {
    let mut fds = HashMap::new();
    fds.insert((100, 0), true);
    let d = ReverseShellDetector::new(FakeFdKind(fds));
    assert!(d.observe(100, 0, "/usr/bin/python3").is_none());
}

#[test]
fn matches_shell_by_basename_regardless_of_directory() {
    let mut fds = HashMap::new();
    fds.insert((100, 0), true);
    let d = ReverseShellDetector::new(FakeFdKind(fds));
    assert!(d.observe(100, 0, "/usr/local/bin/zsh").is_some());
}

#[test]
fn every_listed_shell_name_matches() {
    for name in ["sh", "bash", "dash", "zsh", "ash", "ksh", "csh", "tcsh"] {
        assert!(is_shell_path(&format!("/bin/{}", name)), "{}", name);
        assert!(is_shell_path(name), "{}", name);
    }
    assert!(!is_shell_path("/bin/bash5"));
    assert!(!is_shell_path("/bin/fish"));
    assert!(!is_shell_path("/bin/bash/"));
}

#[test]
fn reverse_shell_verdict_cases() {
    let a = reverse_shell_verdict(3, 1000, "/bin/dash", false, true).unwrap();
    assert_eq!((a.pid, a.uid, a.path.as_str()), (3, 1000, "/bin/dash"));
    assert!(reverse_shell_verdict(3, 1000, "/bin/dash", false, false).is_none());
    assert!(reverse_shell_verdict(3, 1000, "/usr/bin/nc", true, true).is_none());
}
