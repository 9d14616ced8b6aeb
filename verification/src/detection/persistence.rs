//! Writes into known persistence locations: cron dirs, systemd unit paths,
//! shell rc files.
use vstd::prelude::*;

use crate::text::{
    basename, basename_of, chars_of, contains, ends_with, equals, has_infix, has_prefix,
    has_suffix, starts_with,
};

verus! {

/// Where a persistence write went.
#[derive(Debug, PartialEq, Eq, Structural, Clone, Copy)]
pub enum PersistenceCategory {
    Cron,
    Systemd,
    ShellRc,
}

impl PersistenceCategory {
    pub open spec fn label_spec(self) -> Seq<char> {
        match self {
            PersistenceCategory::Cron => "cron"@,
            PersistenceCategory::Systemd => "systemd"@,
            PersistenceCategory::ShellRc => "shell-rc"@,
        }
    }

    /// Short name of the category: `cron`, `systemd` or `shell-rc`.
    pub fn label(&self) -> (r: &'static str)
        ensures
            r@ == self.label_spec(),
    {
        match self {
            PersistenceCategory::Cron => "cron",
            PersistenceCategory::Systemd => "systemd",
            PersistenceCategory::ShellRc => "shell-rc",
        }
    }
}

/// Cron locations: the cron directories and spool, or `/etc/crontab`.
pub open spec fn is_cron_path(p: Seq<char>) -> bool {
    ||| has_prefix(p, "/etc/cron.d/"@)
    ||| has_prefix(p, "/etc/cron.daily/"@)
    ||| has_prefix(p, "/etc/cron.hourly/"@)
    ||| has_prefix(p, "/etc/cron.weekly/"@)
    ||| has_prefix(p, "/etc/cron.monthly/"@)
    ||| has_prefix(p, "/var/spool/cron/"@)
    ||| p == "/etc/crontab"@
}

/// Systemd unit locations: the system unit directories, or a per-user
/// `~/.config/systemd/user/` anywhere in the path.
pub open spec fn is_systemd_path(p: Seq<char>) -> bool {
    ||| has_prefix(p, "/etc/systemd/system/"@)
    ||| has_prefix(p, "/usr/lib/systemd/system/"@)
    ||| has_prefix(p, "/lib/systemd/system/"@)
    ||| has_prefix(p, "/run/systemd/system/"@)
    ||| has_infix(p, "/.config/systemd/user/"@)
}

/// System-wide shell startup files.
pub open spec fn is_system_shell_rc(p: Seq<char>) -> bool {
    ||| p == "/etc/profile"@
    ||| p == "/etc/bash.bashrc"@
    ||| p == "/etc/zsh/zshrc"@
}

/// File names of per-user shell startup files.
pub open spec fn is_shell_rc_name(b: Seq<char>) -> bool {
    ||| b == ".bashrc"@
    ||| b == ".bash_profile"@
    ||| b == ".bash_login"@
    ||| b == ".profile"@
    ||| b == ".zshrc"@
    ||| b == ".zprofile"@
    ||| b == ".zlogin"@
    ||| b == ".cshrc"@
    ||| b == ".tcshrc"@
}

/// The persistence category of a written path, checked in order: cron,
/// systemd, system shell rc files, `/etc/profile.d/*.sh`, then a per-user
/// shell rc file name as the path's exact basename.
pub open spec fn persistence_category(p: Seq<char>) -> Option<PersistenceCategory> {
    if is_cron_path(p) {
        Some(PersistenceCategory::Cron)
    } else if is_systemd_path(p) {
        Some(PersistenceCategory::Systemd)
    } else if is_system_shell_rc(p) {
        Some(PersistenceCategory::ShellRc)
    } else if has_prefix(p, "/etc/profile.d/"@) && has_suffix(p, ".sh"@) {
        Some(PersistenceCategory::ShellRc)
    } else if is_shell_rc_name(basename(p)) {
        Some(PersistenceCategory::ShellRc)
    } else {
        None
    }
}

/// A persistence alert: `pid` (running as `uid`) created or wrote `path`,
/// a location of the given category.
pub struct PersistenceAlert {
    pub pid: u32,
    pub uid: u32,
    pub path: String,
    pub category: PersistenceCategory,
}

/// A write into a known persistence location: cron dirs, systemd unit
/// paths, or shell rc files. Stateless path classification — no timing
/// correlation, since the write itself is already the whole signal.
pub struct PersistenceWriteDetector;

impl PersistenceWriteDetector {
    pub fn new() -> (r: PersistenceWriteDetector) {
        PersistenceWriteDetector
    }

    /// Call only for Write events. Alerts exactly when the path falls in a
    /// persistence category.
    pub fn observe(&self, pid: u32, uid: u32, path: &str) -> (r: Option<PersistenceAlert>)
        ensures
            r is Some <==> persistence_category(path@) is Some,
            r matches Some(a) ==> a.pid == pid && a.uid == uid && a.path@ == path@ && Some(a.category)
                == persistence_category(path@),
    {
        let category = classify(path)?;
        Some(PersistenceAlert { pid, uid, path: path.to_owned(), category })
    }
}

fn is_cron(p: &[char]) -> (r: bool)
    ensures
        r == is_cron_path(p@),
{
    starts_with(p, "/etc/cron.d/") || starts_with(p, "/etc/cron.daily/") || starts_with(p, "/etc/cron.hourly/")
        || starts_with(p, "/etc/cron.weekly/") || starts_with(p, "/etc/cron.monthly/")
        || starts_with(p, "/var/spool/cron/") || equals(p, "/etc/crontab")
}

fn is_systemd(p: &[char]) -> (r: bool)
    ensures
        r == is_systemd_path(p@),
{
    starts_with(p, "/etc/systemd/system/") || starts_with(p, "/usr/lib/systemd/system/")
        || starts_with(p, "/lib/systemd/system/") || starts_with(p, "/run/systemd/system/")
        || contains(p, "/.config/systemd/user/")
}

fn is_system_rc(p: &[char]) -> (r: bool)
    ensures
        r == is_system_shell_rc(p@),
{
    equals(p, "/etc/profile") || equals(p, "/etc/bash.bashrc") || equals(p, "/etc/zsh/zshrc")
}

fn is_rc_name(b: &[char]) -> (r: bool)
    ensures
        r == is_shell_rc_name(b@),
{
    equals(b, ".bashrc") || equals(b, ".bash_profile") || equals(b, ".bash_login") || equals(b, ".profile")
        || equals(b, ".zshrc") || equals(b, ".zprofile") || equals(b, ".zlogin") || equals(b, ".cshrc")
        || equals(b, ".tcshrc")
}

/// The persistence category of a written path (see
/// [`persistence_category`]).
pub fn classify(path: &str) -> (r: Option<PersistenceCategory>)
    ensures
        r == persistence_category(path@),
{
    let cs = chars_of(path);
    let p = cs.as_slice();
    if is_cron(p) {
        return Some(PersistenceCategory::Cron);
    }
    if is_systemd(p) {
        return Some(PersistenceCategory::Systemd);
    }
    if is_system_rc(p) {
        return Some(PersistenceCategory::ShellRc);
    }
    if starts_with(p, "/etc/profile.d/") && ends_with(p, ".sh") {
        return Some(PersistenceCategory::ShellRc);
    }
    let base = basename_of(p);
    if is_rc_name(base.as_slice()) {
        return Some(PersistenceCategory::ShellRc);
    }
    None
}

// ---------------------------------------------------------------------------
// Laws
// ---------------------------------------------------------------------------

/// A shell rc file name is flagged in any directory: whatever `dir` is, a
/// write to `dir/name` alerts.
pub proof fn law_rc_name_flagged_in_any_directory(dir: Seq<char>, name: Seq<char>)
    requires
        is_shell_rc_name(name),
        forall|i: int| 0 <= i < name.len() ==> name[i] != '/',
    ensures
        persistence_category(dir.push('/') + name) is Some,
{
    crate::text::lemma_basename_after_slash(dir, name);
}

/// Anything under a cron directory, or `/etc/crontab` itself, is cron
/// persistence.
pub proof fn law_cron_locations_are_cron(p: Seq<char>)
    requires
        is_cron_path(p),
    ensures
        persistence_category(p) == Some(PersistenceCategory::Cron),
{
}

/// A path is flagged only for a known location or a known rc file name.
pub proof fn law_only_known_locations_flagged(p: Seq<char>)
    requires
        persistence_category(p) is Some,
    ensures
        is_cron_path(p) || is_systemd_path(p) || is_system_shell_rc(p) || (has_prefix(
            p,
            "/etc/profile.d/"@,
        ) && has_suffix(p, ".sh"@)) || is_shell_rc_name(basename(p)),
{
}

/// The per-user shell rc files are exactly nine names, matched whole: any
/// other name, such as `.npmrc` or `.vimrc`, is not one of them.
pub proof fn law_shell_rc_names_are_exactly_nine(b: Seq<char>)
    ensures
        is_shell_rc_name(b) <==> {
            ||| b =~= seq!['.', 'b', 'a', 's', 'h', 'r', 'c']
            ||| b =~= seq!['.', 'b', 'a', 's', 'h', '_', 'p', 'r', 'o', 'f', 'i', 'l', 'e']
            ||| b =~= seq!['.', 'b', 'a', 's', 'h', '_', 'l', 'o', 'g', 'i', 'n']
            ||| b =~= seq!['.', 'p', 'r', 'o', 'f', 'i', 'l', 'e']
            ||| b =~= seq!['.', 'z', 's', 'h', 'r', 'c']
            ||| b =~= seq!['.', 'z', 'p', 'r', 'o', 'f', 'i', 'l', 'e']
            ||| b =~= seq!['.', 'z', 'l', 'o', 'g', 'i', 'n']
            ||| b =~= seq!['.', 'c', 's', 'h', 'r', 'c']
            ||| b =~= seq!['.', 't', 'c', 's', 'h', 'r', 'c']
        },
{
    reveal_strlit(".bashrc");
    assert(".bashrc"@ =~= seq!['.', 'b', 'a', 's', 'h', 'r', 'c']);
    reveal_strlit(".bash_profile");
    assert(".bash_profile"@ =~= seq!['.', 'b', 'a', 's', 'h', '_', 'p', 'r', 'o', 'f', 'i', 'l', 'e']);
    reveal_strlit(".bash_login");
    assert(".bash_login"@ =~= seq!['.', 'b', 'a', 's', 'h', '_', 'l', 'o', 'g', 'i', 'n']);
    reveal_strlit(".profile");
    assert(".profile"@ =~= seq!['.', 'p', 'r', 'o', 'f', 'i', 'l', 'e']);
    reveal_strlit(".zshrc");
    assert(".zshrc"@ =~= seq!['.', 'z', 's', 'h', 'r', 'c']);
    reveal_strlit(".zprofile");
    assert(".zprofile"@ =~= seq!['.', 'z', 'p', 'r', 'o', 'f', 'i', 'l', 'e']);
    reveal_strlit(".zlogin");
    assert(".zlogin"@ =~= seq!['.', 'z', 'l', 'o', 'g', 'i', 'n']);
    reveal_strlit(".cshrc");
    assert(".cshrc"@ =~= seq!['.', 'c', 's', 'h', 'r', 'c']);
    reveal_strlit(".tcshrc");
    assert(".tcshrc"@ =~= seq!['.', 't', 'c', 's', 'h', 'r', 'c']);
}

/// The system-wide shell rc files are exactly three paths.
pub proof fn law_system_rc_files_are_exactly_three(p: Seq<char>)
    ensures
        is_system_shell_rc(p) <==> {
            ||| p =~= seq!['/', 'e', 't', 'c', '/', 'p', 'r', 'o', 'f', 'i', 'l', 'e']
            ||| p =~= seq!['/', 'e', 't', 'c', '/', 'b', 'a', 's', 'h', '.', 'b', 'a', 's', 'h', 'r', 'c']
            ||| p =~= seq!['/', 'e', 't', 'c', '/', 'z', 's', 'h', '/', 'z', 's', 'h', 'r', 'c']
        },
{
    reveal_strlit("/etc/profile");
    assert("/etc/profile"@ =~= seq!['/', 'e', 't', 'c', '/', 'p', 'r', 'o', 'f', 'i', 'l', 'e']);
    reveal_strlit("/etc/bash.bashrc");
    assert("/etc/bash.bashrc"@ =~= seq!['/', 'e', 't', 'c', '/', 'b', 'a', 's', 'h', '.', 'b', 'a', 's', 'h', 'r', 'c']);
    reveal_strlit("/etc/zsh/zshrc");
    assert("/etc/zsh/zshrc"@ =~= seq!['/', 'e', 't', 'c', '/', 'z', 's', 'h', '/', 'z', 's', 'h', 'r', 'c']);
}

/// A dotfile whose name merely ends in `rc` is not persistence unless it
/// is one of the shell rc names: outside the cron, systemd, system rc and
/// `/etc/profile.d` locations, a write is flagged only when its basename is
/// one of the nine, and then as a shell rc.
pub proof fn law_user_rc_flagged_only_by_exact_name(p: Seq<char>)
    requires
        !is_cron_path(p),
        !is_systemd_path(p),
        !is_system_shell_rc(p),
        !has_prefix(p, "/etc/profile.d/"@),
    ensures
        persistence_category(p) is Some <==> is_shell_rc_name(basename(p)),
        persistence_category(p) is Some ==> persistence_category(p) == Some(PersistenceCategory::ShellRc),
{
}

} // verus!
