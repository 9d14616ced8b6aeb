use syscall_tracer::display::{alert_tag, is_quit_key, status_text, App, DisplayEvent, MAX_ALERTS, MAX_EVENTS};

#[test]
fn counts_and_bounds_histories() {
    let mut app = App::new();
    for i in 0..(MAX_EVENTS + 5) {
        app.push(DisplayEvent::Trace { kind: "EXEC", text: format!("e{}", i) });
    }
    for i in 0..(MAX_ALERTS + 3) {
        app.push(DisplayEvent::Alert { rule: "dropper", text: format!("a{}", i) });
    }
    assert_eq!(app.event_count(), (MAX_EVENTS + 5) as u64);
    assert_eq!(app.alert_count(), (MAX_ALERTS + 3) as u64);
    assert_eq!(app.alerts_len(), MAX_ALERTS);
    let all = app.recent_events(usize::MAX);
    assert_eq!(all.len(), MAX_EVENTS);
    assert_eq!(all[0].1, "e5");
    assert_eq!(all[MAX_EVENTS - 1].1, format!("e{}", MAX_EVENTS + 4));
}

#[test]
fn tail_window_is_oldest_first() {
    let mut app = App::new();
    for i in 0..5 {
        app.push(DisplayEvent::Alert { rule: "ptrace", text: format!("a{}", i) });
    }
    let w = app.recent_alerts(3);
    assert_eq!(w.iter().map(|x| x.1.as_str()).collect::<Vec<_>>(), vec!["a2", "a3", "a4"]);
    assert_eq!(w[0].0, "ptrace");
    assert!(app.recent_alerts(0).is_empty());
    assert_eq!(app.recent_alerts(10).len(), 5);
    assert!(app.recent_events(10).is_empty());
}

#[test]
fn quit_keys() {
    assert!(is_quit_key('q', false));
    assert!(is_quit_key('q', true));
    assert!(is_quit_key('c', true));
    assert!(!is_quit_key('c', false));
    assert!(!is_quit_key('x', true));
}

#[test]
fn alert_tag_brackets_the_rule() {
    assert_eq!(alert_tag("dropper"), "[dropper] ");
    assert_eq!(
        format!("{}{}", alert_tag("dropper"), "pid=4213 uid=1000 wrote then exec'd /tmp/payload (0ms later)"),
        "[dropper] pid=4213 uid=1000 wrote then exec'd /tmp/payload (0ms later)"
    );
}

#[test]
fn status_text_shows_totals() {
    assert_eq!(
        status_text(12, 3),
        "eBPF Syscall Tracer \u{2014} 12 events, 3 alerts \u{2014} logging to syscall-tracer.jsonl"
    );
}
