use syscall_tracer::detection::procfs::{is_socket_link, parse_status_parent};

#[test]
fn parent_from_status_text() {
    let status = "Name:\tbash\nState:\tS (sleeping)\nTgid:\t500\nPid:\t500\nPPid:\t400\nTracerPid:\t0\n";
    assert_eq!(parse_status_parent(status), Some(400));
    assert_eq!(parse_status_parent("PPid:\t1"), Some(1));
    assert_eq!(parse_status_parent("PPid:   +17  \r\n"), Some(17));
    assert_eq!(parse_status_parent("Name:\tx\n"), None);
    assert_eq!(parse_status_parent(""), None);
    assert_eq!(parse_status_parent("PPid:\tabc\nPPid:\t5\n"), None);
    assert_eq!(parse_status_parent("PPid:\t4294967295\n"), Some(u32::MAX));
    assert_eq!(parse_status_parent("PPid:\t4294967296\n"), None);
    assert_eq!(parse_status_parent("PPid:\t-1\n"), None);
    assert_eq!(parse_status_parent(" PPid:\t3\n"), None);
    assert_eq!(parse_status_parent("PPid:\t\n"), None);
}

#[test]
fn parent_matches_std_parsing() {
    let samples = [
        "PPid:\t400\n",
        "a\nb\nPPid: 12 \n",
        "PPid:007",
        "PPid:+",
        "PPid:\u{a0}9\u{3000}",
        "x\n\nPPid:\t99999999999\n",
    ];
    for status in samples {
        let want: Option<u32> = status
            .lines()
            .find_map(|line| line.strip_prefix("PPid:"))
            .and_then(|rest| rest.trim().parse().ok());
        assert_eq!(parse_status_parent(status), want, "{:?}", status);
    }
}

#[test]
fn socket_links() {
    assert!(is_socket_link("socket:[12345]"));
    assert!(!is_socket_link("/dev/pts/0"));
    assert!(!is_socket_link("pipe:[1]"));
    assert!(!is_socket_link("socket"));
}
