use syscall_tracer::text::{
    basename_of, chars_of, contains, decimal_width, ends_with, push_decimal,
    push_decimal_padded_left, push_padded_right, starts_with,
};

fn s(v: &[char]) -> String {
    v.iter().collect()
}

#[test]
fn decimal_rendering() {
    for (n, want) in [(0u64, "0"), (7, "7"), (10, "10"), (4213, "4213"), (u64::MAX, "18446744073709551615")] {
        let mut out = String::from(">");
        push_decimal(&mut out, n);
        assert_eq!(out, format!(">{}", want));
        assert_eq!(decimal_width(n), want.len());
    }
}

#[test]
fn padding_matches_format_widths() {
    let mut out = String::new();
    push_padded_right(&mut out, "EXEC", 6);
    assert_eq!(out, format!("{:<6}", "EXEC"));
    let mut out = String::new();
    push_padded_right(&mut out, "a-very-long-command-name", 16);
    assert_eq!(out, format!("{:<16}", "a-very-long-command-name"));
    let mut out = String::new();
    push_decimal_padded_left(&mut out, 1000, 8);
    assert_eq!(out, format!("{:>8}", 1000));
    let mut out = String::new();
    push_decimal_padded_left(&mut out, 123456789, 8);
    assert_eq!(out, format!("{:>8}", 123456789));
    let mut out = String::new();
    push_padded_right(&mut out, "é", 3);
    assert_eq!(out, format!("{:<3}", "é"));
}

#[test]
fn prefix_suffix_infix() {
    let p = chars_of("/home/rob/.config/systemd/user/x");
    assert!(starts_with(&p, "/home/"));
    assert!(!starts_with(&p, "/etc/"));
    assert!(ends_with(&p, "/x"));
    assert!(!ends_with(&p, ".sh"));
    assert!(contains(&p, "/.config/systemd/user/"));
    assert!(!contains(&p, "/.config/systemd/system/"));
    assert!(contains(&p, ""));
    assert!(!starts_with(&chars_of("ab"), "abc"));
}

#[test]
fn basenames() {
    assert_eq!(s(&basename_of(&chars_of("/usr/local/bin/zsh"))), "zsh");
    assert_eq!(s(&basename_of(&chars_of("zsh"))), "zsh");
    assert_eq!(s(&basename_of(&chars_of("/a/b/"))), "");
    assert_eq!(s(&basename_of(&chars_of(""))), "");
    for p in ["/usr/local/bin/zsh", "zsh", "/a/b/", "", "//x"] {
        assert_eq!(s(&basename_of(&chars_of(p))), p.rsplit('/').next().unwrap_or(p));
    }
}
