//! State of the live dashboard: bounded histories of event lines and alert
//! lines, with running totals, and the windows of them that fit on screen.
use vstd::prelude::*;
use std::collections::VecDeque;

use crate::text::{decimal, push_decimal, push_str};

verus! {

/// Most event lines kept for display.
pub const MAX_EVENTS: usize = 500;

/// Most alert lines kept for display.
pub const MAX_ALERTS: usize = 200;

/// A message for the dashboard.
pub enum DisplayEvent {
    /// A decoded event: its kind label and its line.
    Trace { kind: &'static str, text: String },
    /// An alert: its rule name and its line.
    Alert { rule: &'static str, text: String },
}

/// A labelled line as the dashboard keeps it.
pub open spec fn line_view(l: (&'static str, String)) -> (Seq<char>, Seq<char>) {
    (l.0@, l.1@)
}

/// The views of a list of labelled lines.
pub open spec fn lines_view(s: Seq<(&'static str, String)>) -> Seq<(Seq<char>, Seq<char>)> {
    s.map_values(|l: (&'static str, String)| line_view(l))
}

/// The last `n` elements of `s` (all of `s` when it is shorter).
pub open spec fn last_n<T>(s: Seq<T>, n: int) -> Seq<T> {
    if s.len() > n {
        s.skip(s.len() - n)
    } else {
        s
    }
}

/// What the dashboard holds.
pub struct AppView {
    pub events: Seq<(Seq<char>, Seq<char>)>,
    pub alerts: Seq<(Seq<char>, Seq<char>)>,
    pub event_count: u64,
    pub alert_count: u64,
}

/// What a message says: whether it is a trace (else an alert), its label
/// and its line.
pub open spec fn message_of(msg: DisplayEvent) -> (bool, Seq<char>, Seq<char>) {
    match msg {
        DisplayEvent::Trace { kind, text } => (true, kind@, text@),
        DisplayEvent::Alert { rule, text } => (false, rule@, text@),
    }
}

/// The dashboard after one message.
pub open spec fn after_push(v: AppView, m: (bool, Seq<char>, Seq<char>)) -> AppView {
    if m.0 {
        AppView {
            events: last_n(v.events.push((m.1, m.2)), MAX_EVENTS as int),
            event_count: (v.event_count + 1) as u64,
            ..v
        }
    } else {
        AppView {
            alerts: last_n(v.alerts.push((m.1, m.2)), MAX_ALERTS as int),
            alert_count: (v.alert_count + 1) as u64,
            ..v
        }
    }
}

/// The dashboard after a sequence of messages, in order.
pub open spec fn app_run(v: AppView, ms: Seq<(bool, Seq<char>, Seq<char>)>) -> AppView
    decreases ms.len(),
{
    if ms.len() == 0 {
        v
    } else {
        after_push(app_run(v, ms.drop_last()), ms.last())
    }
}

/// The labelled lines of the messages of one kind (traces when `trace`),
/// in order.
pub open spec fn lines_of(ms: Seq<(bool, Seq<char>, Seq<char>)>, trace: bool) -> Seq<(Seq<char>, Seq<char>)>
    decreases ms.len(),
{
    if ms.len() == 0 {
        Seq::empty()
    } else if ms.last().0 == trace {
        lines_of(ms.drop_last(), trace).push((ms.last().1, ms.last().2))
    } else {
        lines_of(ms.drop_last(), trace)
    }
}

/// An empty dashboard.
pub open spec fn empty_app() -> AppView {
    AppView { events: Seq::empty(), alerts: Seq::empty(), event_count: 0, alert_count: 0 }
}

proof fn lemma_last_n_push<T>(s: Seq<T>, x: T, n: int)
    requires
        n > 0,
    ensures
        last_n(last_n(s, n).push(x), n) == last_n(s.push(x), n),
{
    assert(last_n(last_n(s, n).push(x), n) =~= last_n(s.push(x), n));
}

proof fn lemma_lines_of_len(ms: Seq<(bool, Seq<char>, Seq<char>)>, trace: bool)
    ensures
        lines_of(ms, trace).len() <= ms.len(),
    decreases ms.len(),
{
    if ms.len() > 0 {
        lemma_lines_of_len(ms.drop_last(), trace);
    }
}

/// From an empty dashboard, after any sequence of messages (fewer than
/// `u64::MAX`), the counts are the numbers of traces and alerts pushed, and
/// the histories hold the most recent trace and alert lines (at most 500
/// and 200), in push order.
pub proof fn law_app_after_messages(ms: Seq<(bool, Seq<char>, Seq<char>)>)
    requires
        ms.len() < u64::MAX,
    ensures
        ({
            let v = app_run(empty_app(), ms);
            &&& v.event_count == lines_of(ms, true).len()
            &&& v.alert_count == lines_of(ms, false).len()
            &&& v.events == last_n(lines_of(ms, true), MAX_EVENTS as int)
            &&& v.alerts == last_n(lines_of(ms, false), MAX_ALERTS as int)
        }),
    decreases ms.len(),
{
    if ms.len() > 0 {
        let m0 = ms.drop_last();
        law_app_after_messages(m0);
        lemma_lines_of_len(m0, true);
        lemma_lines_of_len(m0, false);
        let x = (ms.last().1, ms.last().2);
        lemma_last_n_push(lines_of(m0, true), x, MAX_EVENTS as int);
        lemma_last_n_push(lines_of(m0, false), x, MAX_ALERTS as int);
    } else {
        assert(last_n(Seq::<(Seq<char>, Seq<char>)>::empty(), MAX_EVENTS as int) =~= Seq::<(Seq<char>, Seq<char>)>::empty());
        assert(last_n(Seq::<(Seq<char>, Seq<char>)>::empty(), MAX_ALERTS as int) =~= Seq::<(Seq<char>, Seq<char>)>::empty());
    }
}

/// Dashboard state: the most recent event and alert lines, oldest first,
/// and how many of each were ever pushed.
pub struct App {
    events: VecDeque<(&'static str, String)>,
    alerts: VecDeque<(&'static str, String)>,
    event_count: u64,
    alert_count: u64,
}

impl View for App {
    type V = AppView;

    closed spec fn view(&self) -> AppView {
        AppView {
            events: lines_view(self.events@),
            alerts: lines_view(self.alerts@),
            event_count: self.event_count,
            alert_count: self.alert_count,
        }
    }
}

/// Keeps at most `max` lines after appending one, dropping the oldest.
fn push_bounded(buf: &mut VecDeque<(&'static str, String)>, line: (&'static str, String), max: usize)
    requires
        max > 0,
        old(buf)@.len() <= max,
    ensures
        lines_view(final(buf)@) == last_n(lines_view(old(buf)@).push(line_view(line)), max as int),
        final(buf)@.len() <= max,
{
    let ghost pushed = lines_view(old(buf)@).push(line_view(line));
    buf.push_back(line);
    assert(lines_view(buf@) =~= pushed);
    if buf.len() > max {
        let _ = buf.pop_front();
        assert(lines_view(buf@) =~= pushed.skip(1));
    }
}

impl App {
    #[verifier::type_invariant]
    closed spec fn bounded(self) -> bool {
        self.events@.len() <= MAX_EVENTS && self.alerts@.len() <= MAX_ALERTS
    }

    /// An empty dashboard.
    pub fn new() -> (r: App)
        ensures
            r@.events == Seq::<(Seq<char>, Seq<char>)>::empty(),
            r@.alerts == Seq::<(Seq<char>, Seq<char>)>::empty(),
            r@.event_count == 0,
            r@.alert_count == 0,
            r@ == empty_app(),
    {
        let r = App {
            events: VecDeque::with_capacity(MAX_EVENTS),
            alerts: VecDeque::with_capacity(MAX_ALERTS),
            event_count: 0,
            alert_count: 0,
        };
        assert(lines_view(r.events@) =~= Seq::<(Seq<char>, Seq<char>)>::empty());
        assert(lines_view(r.alerts@) =~= Seq::<(Seq<char>, Seq<char>)>::empty());
        r
    }

    /// Adds a message: a trace line to the events, an alert line to the
    /// alerts, each history keeping only its most recent lines, and the
    /// matching total counted up.
    pub fn push(&mut self, msg: DisplayEvent)
        requires
            msg is Trace ==> old(self)@.event_count < u64::MAX,
            msg is Alert ==> old(self)@.alert_count < u64::MAX,
        ensures
            final(self)@ == after_push(old(self)@, message_of(msg)),
            match msg {
                DisplayEvent::Trace { kind, text } => {
                    &&& final(self)@.event_count == old(self)@.event_count + 1
                    &&& final(self)@.events == last_n(
                        old(self)@.events.push((kind@, text@)),
                        MAX_EVENTS as int,
                    )
                    &&& final(self)@.alert_count == old(self)@.alert_count
                    &&& final(self)@.alerts == old(self)@.alerts
                    &&& final(self)@.events.len() <= MAX_EVENTS
                },
                DisplayEvent::Alert { rule, text } => {
                    &&& final(self)@.alert_count == old(self)@.alert_count + 1
                    &&& final(self)@.alerts == last_n(
                        old(self)@.alerts.push((rule@, text@)),
                        MAX_ALERTS as int,
                    )
                    &&& final(self)@.event_count == old(self)@.event_count
                    &&& final(self)@.events == old(self)@.events
                    &&& final(self)@.alerts.len() <= MAX_ALERTS
                },
            },
    {
        proof {
            use_type_invariant(&*self);
        }
        match msg {
            DisplayEvent::Trace { kind, text } => {
                self.event_count = self.event_count + 1;
                let mut events = VecDeque::new();
                std::mem::swap(&mut events, &mut self.events);
                push_bounded(&mut events, (kind, text), MAX_EVENTS);
                self.events = events;
            },
            DisplayEvent::Alert { rule, text } => {
                self.alert_count = self.alert_count + 1;
                let mut alerts = VecDeque::new();
                std::mem::swap(&mut alerts, &mut self.alerts);
                push_bounded(&mut alerts, (rule, text), MAX_ALERTS);
                self.alerts = alerts;
            },
        }
    }

    /// How many trace messages were ever pushed.
    pub fn event_count(&self) -> (r: u64)
        ensures
            r == self@.event_count,
    {
        self.event_count
    }

    /// How many alert messages were ever pushed.
    pub fn alert_count(&self) -> (r: u64)
        ensures
            r == self@.alert_count,
    {
        self.alert_count
    }

    /// How many alert lines are kept.
    pub fn alerts_len(&self) -> (r: usize)
        ensures
            r == self@.alerts.len(),
    {
        self.alerts.len()
    }

    /// The last `n` kept event lines, oldest first.
    pub fn recent_events(&self, n: usize) -> (r: Vec<(&'static str, String)>)
        ensures
            lines_view(r@) == last_n(self@.events, n as int),
    {
        tail(&self.events, n)
    }

    /// The last `n` kept alert lines, oldest first.
    pub fn recent_alerts(&self, n: usize) -> (r: Vec<(&'static str, String)>)
        ensures
            lines_view(r@) == last_n(self@.alerts, n as int),
    {
        tail(&self.alerts, n)
    }
}

/// Last `n` items of `buf`, oldest first — the window a fixed-height list
/// widget should show when tailing a stream like `tail -f`.
pub fn tail(buf: &VecDeque<(&'static str, String)>, n: usize) -> (r: Vec<(&'static str, String)>)
    ensures
        lines_view(r@) == last_n(lines_view(buf@), n as int),
{
    let len: usize = buf.len();
    let skip: usize = len.saturating_sub(n);
    let mut out: Vec<(&'static str, String)> = Vec::new();
    let mut i: usize = skip;
    while i < len
        invariant
            len == buf@.len(),
            skip <= i <= len,
            lines_view(out@) == lines_view(buf@).subrange(skip as int, i as int),
        decreases len - i,
    {
        let entry = &buf[i];
        let text = entry.1.clone();
        let line = (entry.0, text);
        assert(*entry == buf@[i as int]);
        assert(line_view(line) == line_view(buf@[i as int]));
        let ghost before = out@;
        out.push(line);
        assert(out@ == before.push(line));
        assert(lines_view(out@) =~= lines_view(before).push(line_view(line)));
        assert(lines_view(out@) =~= lines_view(buf@).subrange(skip as int, i + 1));
        i = i + 1;
    }
    assert(lines_view(buf@).subrange(skip as int, len as int) =~= last_n(lines_view(buf@), n as int));
    out
}

/// The bold tag in front of an alert line in the alerts pane.
pub fn alert_tag(rule: &str) -> (r: String)
    ensures
        r@ == "["@ + rule@ + "] "@,
{
    let mut out = String::new();
    push_str(&mut out, "[");
    push_str(&mut out, rule);
    push_str(&mut out, "] ");
    assert(out@ =~= "["@ + rule@ + "] "@);
    out
}

/// The status bar: totals of events and alerts seen, and where they are
/// logged.
pub fn status_text(events: u64, alerts: u64) -> (r: String)
    ensures
        r@ == "eBPF Syscall Tracer \u{2014} "@ + decimal(events as nat) + " events, "@ + decimal(alerts as nat)
            + " alerts \u{2014} logging to syscall-tracer.jsonl"@,
{
    let mut out = String::new();
    push_str(&mut out, "eBPF Syscall Tracer \u{2014} ");
    push_decimal(&mut out, events);
    push_str(&mut out, " events, ");
    push_decimal(&mut out, alerts);
    push_str(&mut out, " alerts \u{2014} logging to syscall-tracer.jsonl");
    assert(out@ =~= "eBPF Syscall Tracer \u{2014} "@ + decimal(events as nat) + " events, "@ + decimal(
        alerts as nat,
    ) + " alerts \u{2014} logging to syscall-tracer.jsonl"@);
    out
}

/// Is this key press the quit key: `q`, or `c` with Control held?
pub fn is_quit_key(ch: char, control: bool) -> (r: bool)
    ensures
        r == (ch == 'q' || (ch == 'c' && control)),
{
    ch == 'q' || (ch == 'c' && control)
}

} // verus!
