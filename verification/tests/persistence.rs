use syscall_tracer::detection::persistence::{classify, PersistenceCategory, PersistenceWriteDetector};

#[test]
fn flags_cron_d_write() {
    let d = PersistenceWriteDetector::new();
    let alert = d.observe(100, 0, "/etc/cron.d/backdoor").expect("cron.d write should alert");
    assert_eq!(alert.category, PersistenceCategory::Cron);
}

#[test]
fn flags_cron_spool_write() {
    let d = PersistenceWriteDetector::new();
    let alert = d.observe(100, 1000, "/var/spool/cron/crontabs/rob").unwrap();
    assert_eq!(alert.category, PersistenceCategory::Cron);
}

#[test]
fn flags_systemd_unit_write() {
    let d = PersistenceWriteDetector::new();
    let alert = d.observe(100, 0, "/etc/systemd/system/backdoor.service").unwrap();
    assert_eq!(alert.category, PersistenceCategory::Systemd);
}

#[test]
fn flags_systemd_user_unit_write() {
    let d = PersistenceWriteDetector::new();
    let alert = d.observe(100, 1000, "/home/rob/.config/systemd/user/backdoor.service").unwrap();
    assert_eq!(alert.category, PersistenceCategory::Systemd);
}

#[test]
fn flags_bashrc_write_regardless_of_home_dir() {
    let d = PersistenceWriteDetector::new();
    let alert = d.observe(100, 1000, "/home/alice/.bashrc").unwrap();
    assert_eq!(alert.category, PersistenceCategory::ShellRc);
}

#[test]
fn flags_etc_profile_d_script() {
    let d = PersistenceWriteDetector::new();
    let alert = d.observe(100, 0, "/etc/profile.d/backdoor.sh").unwrap();
    assert_eq!(alert.category, PersistenceCategory::ShellRc);
}

#[test]
fn ignores_unrelated_path() {
    let d = PersistenceWriteDetector::new();
    assert!(d.observe(100, 1000, "/tmp/payload").is_none());
}

#[test]
fn does_not_loosely_substring_match_rc_names() {
    let d = PersistenceWriteDetector::new();
    // basename must match exactly, not just contain "bashrc"
    assert!(d.observe(100, 1000, "/tmp/notbashrc.txt").is_none());
}

#[test]
fn persistence_alert_carries_pid_uid_path() {
    let d = PersistenceWriteDetector::new();
    let a = d.observe(42, 7, "/etc/crontab").unwrap();
    assert_eq!(a.pid, 42);
    assert_eq!(a.uid, 7);
    assert_eq!(a.path, "/etc/crontab");
    assert_eq!(a.category, PersistenceCategory::Cron);
}

#[test]
fn persistence_category_labels() {
    assert_eq!(PersistenceCategory::Cron.label(), "cron");
    assert_eq!(PersistenceCategory::Systemd.label(), "systemd");
    assert_eq!(PersistenceCategory::ShellRc.label(), "shell-rc");
}

#[test]
fn classify_covers_each_location() {
    assert_eq!(classify("/etc/cron.daily/x"), Some(PersistenceCategory::Cron));
    assert_eq!(classify("/etc/cron.hourly/x"), Some(PersistenceCategory::Cron));
    assert_eq!(classify("/etc/cron.weekly/x"), Some(PersistenceCategory::Cron));
    assert_eq!(classify("/etc/cron.monthly/x"), Some(PersistenceCategory::Cron));
    assert_eq!(classify("/usr/lib/systemd/system/a.service"), Some(PersistenceCategory::Systemd));
    assert_eq!(classify("/lib/systemd/system/a.service"), Some(PersistenceCategory::Systemd));
    assert_eq!(classify("/run/systemd/system/a.service"), Some(PersistenceCategory::Systemd));
    assert_eq!(classify("/etc/profile"), Some(PersistenceCategory::ShellRc));
    assert_eq!(classify("/etc/bash.bashrc"), Some(PersistenceCategory::ShellRc));
    assert_eq!(classify("/etc/zsh/zshrc"), Some(PersistenceCategory::ShellRc));
    for name in [".bash_profile", ".bash_login", ".profile", ".zshrc", ".zprofile", ".zlogin", ".cshrc", ".tcshrc"] {
        let p = format!("/home/u/{}", name);
        assert_eq!(classify(&p), Some(PersistenceCategory::ShellRc), "{}", p);
    }
    assert_eq!(classify(".bashrc"), Some(PersistenceCategory::ShellRc));
}

#[test]
fn classify_edge_cases() {
    // the cron directory itself (no trailing slash) is not under it
    assert_eq!(classify("/etc/cron.d"), None);
    // profile.d needs the .sh suffix
    assert_eq!(classify("/etc/profile.d/readme.txt"), None);
    // a trailing slash leaves an empty basename
    assert_eq!(classify("/home/u/.bashrc/"), None);
    // cron wins over the rc-name rule
    assert_eq!(classify("/etc/cron.d/.bashrc"), Some(PersistenceCategory::Cron));
    assert_eq!(classify(""), None);
}
