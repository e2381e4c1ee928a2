use std::sync::{Arc, Mutex};
use std::time::Instant;

use hypr_commons::span_lines::layer::{attribute, event_name, level_hint, tier};
use hypr_commons::span_lines::{
    drop_status, encode, frame, id_from, nonzero, parse_traceparent, seed_from, AtExit, Detail, ExitHooks,
    Level, OpenSpan, Span, SpanLinesLayer, Trace, MAX_RECORD,
};

const TRACE: &str = "4bf92f3577b34da6a3ce929d0e0e4736";

/// The id seed spans in these tests are minted from.
const SEED: u64 = 0x5eed;

fn adopt(detail: Detail) -> Trace {
    Trace::adopt(TRACE, detail).unwrap()
}

/// The one record a span writes when it ends.
fn record(mut span: Span) -> String {
    let line = span.finish(None, 0, 0);
    assert!(span.finish(None, 1, 0).is_none(), "a span must emit once");
    line.expect("expected exactly one record")
}

fn silent(mut span: Span) {
    assert_eq!(span.finish(None, 0, 0), None, "span was expected to be silent");
}

/// Strip ids and numbers so a record's shape can be asserted exactly.
fn skeleton(line: &str) -> String {
    line.split_whitespace()
        .map(|f| match f.split_once('=') {
            Some((k @ ("id" | "parent"), v)) if v != "-" => format!("{k}=<id>"),
            Some((k @ ("seq" | "t_us" | "dur_us"), _)) => format!("{k}=<n>"),
            _ => f.to_string(),
        })
        .collect::<Vec<_>>()
        .join(" ")
}

/// Split on whitespace, each token on its first `=`, percent-decode.
fn naive_read(line: &str) -> Vec<(String, String)> {
    fn decode(s: &str) -> String {
        let mut out = Vec::new();
        let b = s.as_bytes();
        let mut i = 0;
        while i < b.len() {
            if b[i] == b'%' && i + 3 <= b.len() {
                if let Ok(byte) = u8::from_str_radix(&s[i + 1..i + 3], 16) {
                    out.push(byte);
                    i += 3;
                    continue;
                }
            }
            out.push(b[i]);
            i += 1;
        }
        String::from_utf8_lossy(&out).into_owned()
    }
    line.split_whitespace()
        .filter_map(|tok| tok.split_once('='))
        .map(|(k, v)| (k.to_string(), decode(v)))
        .collect()
}

fn field(line: &str, key: &str) -> String {
    line.split_whitespace()
        .filter_map(|token| token.split_once('='))
        .find(|(k, _)| *k == key)
        .unwrap_or_else(|| panic!("no {key} in {line}"))
        .1
        .to_string()
}

#[test]
fn ids_are_w3c_shaped() {
    let t = Trace::adopt(&id_from(7, 1, 16), Detail::Session).unwrap();
    assert_eq!(t.id().len(), 32, "trace id must be 32 hex chars");
    let s = t.span("x", SEED, 1, 0);
    assert_eq!(s.id().len(), 16, "span id must be 16 hex chars");
    assert!(t.id().bytes().all(|b| b.is_ascii_hexdigit()));
    assert!(s.id().bytes().all(|b| b.is_ascii_hexdigit()));
}

#[test]
fn a_malformed_trace_id_is_refused_rather_than_written_into_a_record() {
    for bad in [
        "",
        "zz zz\nspan=whatever",
        "4bf92f3577b34da6a3ce929d0e0e473",
        "4bf92f3577b34da6a3ce929d0e0e47366",
        "4bf92f3577b34da6a3ce929d0e0e473g",
        "00000000000000000000000000000000",
    ] {
        assert!(Trace::adopt(bad, Detail::Session).is_none(), "adopted {bad:?}");
    }
    let t = Trace::adopt("4BF92F3577B34DA6A3CE929D0E0E4736", Detail::Session).unwrap();
    assert_eq!(t.id(), "4bf92f3577b34da6a3ce929d0e0e4736");
}

#[test]
fn a_traceparent_the_spec_calls_invalid_is_not_adopted() {
    let t = "4bf92f3577b34da6a3ce929d0e0e4736";
    let p = "00f067aa0ba902b7";
    for bad in [
        &format!("ff-{t}-{p}-01"),
        &format!("FF-{t}-{p}-01"),
        &format!("00-{t}-{p}-01-extra"),
        &format!("00-{t}-{p}-zz"),
        &format!("00-{t}-{p}-1"),
        &format!("00-{t}-{p}-"),
        &format!("00-{t}-{p}-0100"),
    ] {
        assert!(parse_traceparent(bad).is_none(), "adopted {bad:?}");
    }
    let (trace, parent, flags) =
        parse_traceparent(&format!("01-{t}-{p}-01-cc")).expect("future version must parse");
    assert_eq!((trace.as_str(), parent.as_str(), flags.as_str()), (t, p, "01"));
}

#[test]
fn an_unsampled_parent_stays_unsampled_for_its_children() {
    let t = "4bf92f3577b34da6a3ce929d0e0e4736";
    let header = format!("00-{t}-00f067aa0ba902b7-00");
    let (_, _, flags) = parse_traceparent(&header).unwrap();
    assert_eq!(flags, "00");

    let adopted = Trace::from_env(None, Some(&header), 1, 1);
    assert_eq!(adopted.id(), t);
    let span = adopted.span("lock.session", SEED, 2, 0);
    assert!(
        span.traceparent().ends_with("-00"),
        "child header must preserve the parent's flags: {}",
        span.traceparent()
    );
    let mine = Trace::adopt(t, Detail::Session).unwrap();
    assert!(mine.span("lock.session", SEED, 3, 0).traceparent().ends_with("-01"));
}

#[test]
fn traceparent_round_trips() {
    let t = adopt(Detail::Session);
    let s = t.span("root", SEED, 1, 0);
    let tp = s.traceparent();
    let (trace, parent, flags) = parse_traceparent(&tp).expect("our own header must parse");
    assert_eq!(flags, "01");
    assert_eq!(trace, "4bf92f3577b34da6a3ce929d0e0e4736");
    assert_eq!(parent, s.id());
}

#[test]
fn a_malformed_traceparent_is_ignored_not_fatal() {
    for bad in [
        "",
        "garbage",
        "00-tooshort-0000000000000001-01",
        "00-4bf92f3577b34da6a3ce929d0e0e4736-0000000000000001",
        "00-zzzzzzzzzzzzzzzzzzzzzzzzzzzzzzzz-0000000000000001-01",
        "00-00000000000000000000000000000000-0000000000000001-01",
        "00-4bf92f3577b34da6a3ce929d0e0e4736-0000000000000000-01",
    ] {
        assert!(parse_traceparent(bad).is_none(), "accepted {bad:?}");
        let minted = id_from(3, 4, 16);
        let t = Trace::from_env(Some("frames"), Some(bad), 3, 4);
        assert_eq!(t.id(), minted, "a malformed header must not stop tracing");
        assert_eq!(t.detail(), Detail::Frames);
    }
}

#[test]
fn detail_defaults_to_session_even_for_a_typo() {
    assert_eq!(Detail::parse(None), Detail::Session);
    assert_eq!(Detail::parse(Some("frame")), Detail::Session);
    assert_eq!(Detail::parse(Some("OFF")), Detail::Session);
    assert_eq!(Detail::parse(Some("")), Detail::Session);
    assert_eq!(Detail::parse(Some("off")), Detail::Off);
    assert_eq!(Detail::parse(Some(" frames\n")), Detail::Frames);
}

#[test]
fn detail_orders_from_quiet_to_loud() {
    assert!(Detail::Off < Detail::Session);
    assert!(Detail::Session < Detail::Frames);
    assert!(Detail::Frames.at_least(Detail::Session));
    assert!(!Detail::Off.at_least(Detail::Session));
    assert_eq!(Detail::Off.louder(Detail::Session), Detail::Session);
}

#[test]
fn a_root_span_renders_the_documented_shape() {
    let t = adopt(Detail::Session);
    let line = record(t.span("lock.session", SEED, 1, 0).attr("outcome", "Unlocked"));
    assert_eq!(
        skeleton(&line),
        "span=lock.session trace=4bf92f3577b34da6a3ce929d0e0e4736 id=<id> parent=- seq=<n> t_us=<n> dur_us=<n> outcome=Unlocked"
    );
}

#[test]
fn a_root_span_record_is_exact() {
    let t = adopt(Detail::Session);
    let mut span = t.span("lock.session", SEED, 1, 1204);
    span.set("outcome", "Unlocked");
    assert_eq!(
        span.finish(None, 3, 2413918).unwrap(),
        format!(
            "span=lock.session trace=4bf92f3577b34da6a3ce929d0e0e4736 id={} parent=- seq=3 t_us=1204 dur_us=2413918 outcome=Unlocked",
            id_from(SEED, 1, 8)
        )
    );
}

#[test]
fn a_child_span_names_its_parent_and_shares_the_trace() {
    let t = adopt(Detail::Session);
    let root = t.span("lock.session", SEED, 1, 0);
    let child = root.child("flow.phase", SEED, 2, 10).attr("phase", "PreLock");
    let child_id = child.id().to_string();
    assert_ne!(child_id, root.id(), "ids must be distinct");

    let event = child
        .event("flow.transition", &[("from", "Committing"), ("to", "Locked")], 2, 561514)
        .expect("event must be emitted");
    assert_eq!(
        skeleton(&event),
        "event=flow.transition trace=4bf92f3577b34da6a3ce929d0e0e4736 parent=<id> seq=<n> t_us=<n> from=Committing to=Locked"
    );
    assert_eq!(field(&event, "parent"), child_id);
    assert_eq!(field(&event, "seq"), "2");
    assert_eq!(field(&event, "t_us"), "561514");

    let line = record(child);
    assert!(
        line.contains(&format!("parent={}", root.id())),
        "child must point at its parent; got {line}"
    );
    assert!(line.contains("trace=4bf92f3577b34da6a3ce929d0e0e4736"));
}

#[test]
fn off_silences_every_record() {
    let t = adopt(Detail::Off);
    let root = t.span("lock.session", SEED, 1, 0);
    assert!(!root.enabled());
    assert!(root.event("flow.transition", &[], 0, 0).is_none());
    silent(root.frame_child("frame.present", SEED, 2, 0));
    silent(root.child("flow.phase", SEED, 3, 0));
    silent(root);
}

#[test]
fn frame_spans_are_silent_until_frames_is_asked_for() {
    let quiet = adopt(Detail::Session);
    let root = quiet.span("lock.session", SEED, 1, 0);
    assert!(root.enabled(), "session spans still emit");
    let frame = root.frame_child("frame.present", SEED, 2, 0);
    assert!(!frame.enabled(), "frame span leaked at session detail");
    assert!(
        frame.event("frame.tick", &[], 0, 0).is_none(),
        "an event inherits its span's gate"
    );

    let loud = adopt(Detail::Frames);
    let root = loud.span("lock.session", SEED, 3, 0);
    assert!(root.enabled(), "frames detail keeps session spans");
    assert!(root.frame_child("frame.present", SEED, 4, 0).enabled());
}

#[test]
fn an_id_is_never_all_zero() {
    for (seed, counter) in [(0, 0), (u64::MAX, u64::MAX), (0, 1), (1, 0)] {
        for bytes in [8, 16] {
            let id = id_from(seed, counter, bytes);
            assert_eq!(id.len(), bytes * 2);
            assert!(id.bytes().all(|b| b.is_ascii_hexdigit()));
            assert!(
                id.bytes().any(|b| b != b'0'),
                "all-zero id from seed={seed} counter={counter} bytes={bytes}"
            );
        }
    }
    assert_eq!(nonzero("0000000000000000".into()), "0000000000000001");
    assert_eq!(
        nonzero("00000000000000000000000000000000".into()),
        "00000000000000000000000000000001"
    );
    assert_eq!(nonzero("00000000000000ab".into()), "00000000000000ab");
    assert_eq!(nonzero(String::new()), "", "a zero-width id must stay empty");

    assert!(
        parse_traceparent(&format!("00-{}-{}-01", id_from(0, 0, 16), id_from(0, 0, 8))).is_some(),
        "our own minted ids must survive our own parser"
    );
}

#[test]
fn an_id_is_exactly_the_width_asked_for() {
    for bytes in [0, 1, 4, 8, 12, 16, 20] {
        let id = id_from(0xfeed, 7, bytes);
        assert_eq!(id.len(), bytes * 2, "wrong width for {bytes} bytes: {id:?}");
        assert!(id.bytes().all(|b| b.is_ascii_hexdigit()));
    }
}

#[test]
fn the_seed_reaches_a_span_id() {
    assert_ne!(id_from(1, 0, 8), id_from(2, 0, 8), "seed must reach a span id");
    assert_ne!(id_from(1, 0, 16), id_from(2, 0, 16));
}

#[test]
fn ids_do_not_repeat_or_run_in_sequence() {
    let ids: Vec<String> = (0..2048).map(|c| id_from(0xfeed, c, 8)).collect();
    let unique: std::collections::HashSet<&String> = ids.iter().collect();
    assert_eq!(unique.len(), ids.len(), "id collision within one process");
    let mean: f64 = ids
        .windows(2)
        .map(|w| {
            let a = u64::from_str_radix(&w[0], 16).unwrap();
            let b = u64::from_str_radix(&w[1], 16).unwrap();
            f64::from((a ^ b).count_ones())
        })
        .sum::<f64>()
        / (ids.len() - 1) as f64;
    assert!(
        (28.0..36.0).contains(&mean),
        "consecutive ids differ in {mean:.1} of 64 bits; expected about half"
    );
}

#[test]
fn splitmix_matches_the_reference_values() {
    // The first outputs of the SplitMix64 generator seeded with 0 and 1.
    assert_eq!(hypr_commons::span_lines::splitmix(0), 0xe220a8397b1dcdaf);
    assert_eq!(hypr_commons::span_lines::splitmix(1), 0x910a2dec89025cc1);
}

#[test]
fn no_record_names_a_parent_that_was_never_printed() {
    let t = adopt(Detail::Session);
    let root = t.span("lock.session", SEED, 1, 0);
    let frame = root.frame_child("frame.present", SEED, 2, 0);
    assert!(!frame.enabled(), "frame span must be silent here");

    let orphan = frame.child("frame.subtask", SEED, 3, 0);
    assert!(
        !orphan.enabled(),
        "a child of a silent span must not emit: it would name an absent parent"
    );
    silent(orphan);

    let loud = adopt(Detail::Frames);
    let root = loud.span("lock.session", SEED, 4, 0);
    let frame = root.frame_child("frame.present", SEED, 5, 0);
    assert!(frame.enabled());
    assert!(frame.child("frame.subtask", SEED, 6, 0).enabled());

    assert!(root.child("flow.phase", SEED, 7, 0).enabled());
}

#[test]
fn a_span_can_be_stored_and_shared() {
    fn assert_send_sync<T: Send + Sync>() {}
    assert_send_sync::<Span>();
    assert_send_sync::<Trace>();
    assert_send_sync::<SpanLinesLayer>();
}

#[derive(Clone)]
struct Note(&'static str, Arc<Mutex<Vec<&'static str>>>);

impl AtExit for Note {
    fn flush(&self) {
        self.1.lock().unwrap().push(self.0);
    }
}

#[test]
fn flush_runs_hooks_in_reverse_and_stays_armed() {
    let seen = Arc::new(Mutex::new(Vec::new()));
    let mut hooks = ExitHooks::new();
    hooks.at_exit(Arc::new(Note("first", seen.clone())));
    hooks.at_exit(Arc::new(Note("second", seen.clone())));
    assert_eq!(hooks.len(), 2);
    hooks.flush();
    assert_eq!(*seen.lock().unwrap(), ["second", "first"]);

    hooks.flush();
    assert_eq!(
        *seen.lock().unwrap(),
        ["second", "first", "second", "first"],
        "flush must stay armed for a later exit()"
    );
    assert_eq!(hooks.len(), 2);
}

struct Inner;

impl AtExit for Inner {
    fn flush(&self) {}
}

struct Reentrant(Arc<Mutex<ExitHooks>>);

impl AtExit for Reentrant {
    fn flush(&self) {
        self.0.lock().unwrap().at_exit(Arc::new(Inner));
    }
}

/// What the process-wide flush does: run a snapshot without the lock held.
fn flush_registry(registry: &Arc<Mutex<ExitHooks>>) {
    let snapshot = registry.lock().unwrap().snapshot();
    snapshot.flush();
}

#[test]
fn a_hook_registered_during_flush_does_not_deadlock() {
    let registry = Arc::new(Mutex::new(ExitHooks::new()));
    let hook = Reentrant(registry.clone());
    registry.lock().unwrap().at_exit(Arc::new(hook));
    flush_registry(&registry);
    flush_registry(&registry);
    assert_eq!(registry.lock().unwrap().len(), 3);
}

#[test]
fn the_flush_order_is_newest_first() {
    let seen = Arc::new(Mutex::new(Vec::new()));
    let mut hooks = ExitHooks::new();
    hooks.at_exit(Arc::new(Note("a", seen.clone())));
    hooks.at_exit(Arc::new(Note("b", seen.clone())));
    hooks.at_exit(Arc::new(Note("c", seen.clone())));
    for hook in hooks.flush_order() {
        hook.flush();
    }
    assert_eq!(*seen.lock().unwrap(), ["c", "b", "a"]);
}

#[test]
fn a_snapshot_holds_the_same_hooks() {
    let seen = Arc::new(Mutex::new(Vec::new()));
    let mut hooks = ExitHooks::new();
    hooks.at_exit(Arc::new(Note("only", seen.clone())));
    let snapshot = hooks.snapshot();
    assert_eq!(snapshot.len(), 1);
    snapshot.flush();
    assert_eq!(*seen.lock().unwrap(), ["only"]);
}

#[test]
fn a_span_emits_exactly_once_however_it_ends() {
    let t = adopt(Detail::Session);
    let mut span = t.span("lock.session", SEED, 1, 0);
    let mut written = 0;
    for seq in 0..3 {
        if span.finish(None, seq, 0).is_some() {
            written += 1;
        }
    }
    assert_eq!(written, 1, "repeated finish must write one record");
    assert!(!span.will_emit());

    let span = t.span("lock.session", SEED, 2, 0);
    assert!(span.will_emit(), "an unfinished span is still owed its record");
}

#[test]
fn end_emits_once_and_drop_does_not_repeat_it() {
    let t = adopt(Detail::Session);
    let mut span = t.span("lock.session", SEED, 1, 0);
    let first = span.finish(None, 0, 0).expect("first end must emit");
    assert!(first.starts_with("span=lock.session"));
    assert!(
        span.finish(None, 1, 0).is_none(),
        "a span must not emit twice; Drop runs after end()"
    );
}

#[test]
fn a_span_ended_by_a_panic_carries_the_status() {
    assert_eq!(drop_status(true), Some("panic"));
    assert_eq!(drop_status(false), None);

    let t = adopt(Detail::Session);
    let mut span = t.span("lock.session", SEED, 1, 0).attr("outcome", "Unlocked");
    let line = span.finish(drop_status(true), 0, 0).unwrap();
    assert!(line.ends_with(" outcome=Unlocked status=panic"), "{line}");
}

#[test]
fn a_record_is_one_buffer_and_one_line() {
    let t = adopt(Detail::Session);
    let line = record(t.span("lock.session", SEED, 1, 0).attr("phase", "PreLock"));
    let bytes = frame(&line);
    assert_eq!(bytes.iter().filter(|b| **b == b'\n').count(), 1);
    assert_eq!(*bytes.last().unwrap(), b'\n', "newline must terminate");
    assert_eq!(&bytes[..bytes.len() - 1], line.as_bytes(), "payload must be intact");
    assert!(bytes.is_ascii(), "a non-ASCII byte would break the truncation index");
}

#[test]
fn an_oversized_record_is_capped_and_says_so() {
    let t = adopt(Detail::Session);
    let mut span = t.span("lock.session", SEED, 1, 0);
    span.set("blob", &"x".repeat(8000));
    let bytes = frame(&record(span));
    assert!(
        bytes.len() <= MAX_RECORD + b" trunc=1\n".len(),
        "cap not applied: {}",
        bytes.len()
    );
    assert!(bytes.ends_with(b" trunc=1\n"), "truncation must be visible to a reader");
    assert_eq!(bytes.iter().filter(|b| **b == b'\n').count(), 1);
}

#[test]
fn a_record_at_the_cap_is_not_truncated() {
    let line = "x".repeat(MAX_RECORD);
    let bytes = frame(&line);
    assert_eq!(bytes.len(), MAX_RECORD + 1);
    assert!(!bytes.ends_with(b" trunc=1\n"));
    let longer = "x".repeat(MAX_RECORD + 1);
    let bytes = frame(&longer);
    assert_eq!(bytes.len(), MAX_RECORD + b" trunc=1\n".len());
}

#[test]
fn structural_bytes_are_encoded_away() {
    assert_eq!(encode("PreLock"), "PreLock");
    assert_eq!(encode("0.3.3"), "0.3.3");
    assert_eq!(encode("DP-1"), "DP-1");
    assert_eq!(encode(""), "");
    assert_eq!(encode("two words"), "two%20words");
    assert_eq!(encode("a=b"), "a%3Db");
    assert_eq!(encode("a\nb"), "a%0Ab");
    assert_eq!(encode("a\tb"), "a%09b");
    assert_eq!(encode("a\rb"), "a%0Db");
    assert_eq!(encode("a\"b"), "a%22b");
    assert_eq!(encode("a\u{a0}b"), "a%C2%A0b");
    assert_eq!(encode("a\u{2028}b"), "a%E2%80%A8b");
    assert_eq!(encode("100%"), "100%25");
}

#[test]
fn a_careless_literal_key_cannot_corrupt_a_record() {
    let t = adopt(Detail::Session);
    let line = record(
        t.span("lock.session", SEED, 1, 0)
            .attr("bad key", "v")
            .attr("also=bad", "w"),
    );
    let fields = naive_read(&line);
    let keys: Vec<&str> = fields.iter().map(|(k, _)| k.as_str()).collect();
    assert_eq!(
        keys,
        ["span", "trace", "id", "parent", "seq", "t_us", "dur_us", "bad%20key", "also%3Dbad"],
        "a malformed literal key must not add or drop fields: {line}"
    );
    assert_eq!(fields.iter().find(|(k, _)| k == "bad%20key").unwrap().1, "v");
    assert_eq!(fields.iter().find(|(k, _)| k == "also%3Dbad").unwrap().1, "w");

    let root = t.span("lock.session", SEED, 2, 0);
    let event = root
        .event("flow.transition", &[("bad key", "v"), ("also=bad", "w")], 0, 0)
        .unwrap();
    let keys: Vec<String> = naive_read(&event).into_iter().map(|(k, _)| k).collect();
    assert_eq!(
        keys,
        ["event", "trace", "parent", "seq", "t_us", "bad%20key", "also%3Dbad"],
        "an event's keys must be encoded too: {event}"
    );
}

#[test]
fn a_hostile_value_cannot_forge_or_split_a_record() {
    for hostile in [
        "boom\nspan=forged trace=0 id=0 parent=- dur_ms=1 outcome=Unlocked",
        "a b=c",
        "two words",
        "x\ty",
        "a\u{a0}outcome=Unlocked",
        "\"quoted\"",
        "100% =",
    ] {
        let t = adopt(Detail::Session);
        let line = record(
            t.span("lock.session", SEED, 1, 0)
                .attr("note", hostile)
                .attr("after", "sentinel"),
        );
        assert_eq!(line.lines().count(), 1, "record split into two: {line:?}");
        let fields = naive_read(&line);
        let keys: Vec<&str> = fields.iter().map(|(k, _)| k.as_str()).collect();
        assert_eq!(
            keys,
            ["span", "trace", "id", "parent", "seq", "t_us", "dur_us", "note", "after"],
            "unexpected fields from {hostile:?}: {line}"
        );
        assert_eq!(
            fields.iter().find(|(k, _)| k == "note").unwrap().1,
            hostile,
            "value did not round-trip"
        );
        assert_eq!(fields.iter().find(|(k, _)| k == "after").unwrap().1, "sentinel");
    }
}

/// A subscriber's view of the bridge: hands the layer the values tracing
/// would, numbers records, and keeps what was written.
struct Bridge {
    layer: SpanLinesLayer,
    seq: u64,
    next_raw: u64,
    stack: Vec<u64>,
    written: Vec<String>,
}

impl Bridge {
    fn new(detail: Detail) -> Bridge {
        Bridge {
            layer: SpanLinesLayer::with_detail(&["admitted"], detail),
            seq: 0,
            next_raw: 1,
            stack: Vec::new(),
            written: Vec::new(),
        }
    }

    fn ancestors(&self) -> Vec<u64> {
        self.stack.iter().rev().copied().collect()
    }

    /// Open and enter a span; returns tracing's id for it.
    fn enter(&mut self, level: Level, target: &str, name: &'static str, fields: &[(&str, &str)]) -> u64 {
        let raw = self.next_raw;
        self.next_raw += 1;
        let mut text = String::new();
        for (k, v) in fields {
            text.push_str(&attribute(k, v));
        }
        let ancestors = self.ancestors();
        self.layer.open_span(
            raw,
            level,
            target,
            name,
            text,
            0xabc,
            raw,
            &ancestors,
            Instant::now(),
            0,
        );
        self.stack.push(raw);
        raw
    }

    fn exit(&mut self) {
        let raw = self.stack.pop().unwrap();
        if let Some(span) = self.layer.close(raw) {
            self.write_span(&span, None);
        }
    }

    fn write_span(&mut self, span: &OpenSpan, status: Option<&str>) {
        let line = span.render(TRACE, self.seq, 0, status);
        self.seq += 1;
        self.written.push(line);
    }

    fn event(&mut self, level: Level, target: &str, name: &'static str, fields: &[(&str, &str)]) {
        let mut text = String::new();
        for (k, v) in fields {
            text.push_str(&attribute(k, v));
        }
        let ancestors = self.ancestors();
        if let Some(line) =
            self.layer
                .event(level, target, name, &ancestors, &text, TRACE, self.seq, 0)
        {
            self.seq += 1;
            self.written.push(line);
        }
    }

    fn exit_process(&mut self) {
        for span in self.layer.close_open() {
            self.write_span(&span, Some("exit"));
        }
    }
}

#[test]
fn a_span_is_written_in_the_documented_field_order() {
    let mut b = Bridge::new(Detail::Session);
    b.enter(Level::Info, "admitted", "lock.session", &[]);
    b.exit();
    let written = b.written;
    assert_eq!(written.len(), 1, "{written:?}");
    let keys: Vec<&str> = written[0]
        .split_whitespace()
        .filter_map(|t| t.split_once('='))
        .map(|(k, _)| k)
        .collect();
    assert_eq!(
        keys,
        ["span", "trace", "id", "parent", "seq", "t_us", "dur_us"],
        "{}",
        written[0]
    );
    assert_eq!(field(&written[0], "span"), "lock.session");
    assert_eq!(field(&written[0], "parent"), "-");
    assert_eq!(field(&written[0], "id").len(), 16);
    assert_eq!(field(&written[0], "trace").len(), 32);
}

#[test]
fn a_target_outside_the_allowlist_is_never_recorded() {
    let mut b = Bridge::new(Detail::Frames);
    b.enter(Level::Info, "admitted", "lock.session", &[]);
    b.enter(Level::Info, "zbus", "dbus.call", &[]);
    b.event(Level::Info, "zbus", "event src/conn.rs:10", &[("message", "connected")]);
    b.exit();
    b.exit();
    assert_eq!(b.written.len(), 1, "only the admitted span: {:?}", b.written);
    assert_eq!(field(&b.written[0], "span"), "lock.session");
}

#[test]
fn a_prefix_matches_only_on_a_module_boundary() {
    let mut b = Bridge::new(Detail::Session);
    b.enter(Level::Info, "admitted::inner", "yes", &[]);
    b.exit();
    b.enter(Level::Info, "admittedly", "no", &[]);
    b.exit();
    let names: Vec<String> = b.written.iter().map(|r| field(r, "span")).collect();
    assert_eq!(names, ["yes"], "{:?}", b.written);
    assert!(b.layer.admits("admitted"));
    assert!(b.layer.admits("admitted::inner::deeper"));
    assert!(!b.layer.admits("admitted:"));
    assert!(!b.layer.admits("admittedly"));
    assert!(!b.layer.admits("admi"));
}

#[test]
fn errors_and_warnings_are_session_tier() {
    let mut b = Bridge::new(Detail::Session);
    b.enter(Level::Error, "admitted", "boom", &[]);
    b.enter(Level::Warn, "admitted", "careful", &[]);
    b.enter(Level::Info, "admitted", "normal", &[]);
    b.enter(Level::Trace, "admitted", "chatter", &[]);
    for _ in 0..4 {
        b.exit();
    }
    let mut names: Vec<String> = b.written.iter().map(|r| field(r, "span")).collect();
    names.sort();
    assert_eq!(names, ["boom", "careful", "normal"], "{:?}", b.written);
    assert_eq!(tier(Level::Error), Detail::Session);
    assert_eq!(tier(Level::Debug), Detail::Frames);
}

#[test]
fn the_level_selects_the_detail_tier() {
    let mut quiet = Bridge::new(Detail::Session);
    quiet.enter(Level::Info, "admitted", "lock.session", &[]);
    quiet.enter(Level::Debug, "admitted", "frame.present", &[]);
    quiet.exit();
    quiet.exit();
    let names: Vec<String> = quiet.written.iter().map(|r| field(r, "span")).collect();
    assert_eq!(names, ["lock.session"], "{:?}", quiet.written);

    let mut loud = Bridge::new(Detail::Frames);
    loud.enter(Level::Info, "admitted", "lock.session", &[]);
    loud.enter(Level::Debug, "admitted", "frame.present", &[]);
    loud.exit();
    loud.exit();
    assert_eq!(loud.written.len(), 2, "{:?}", loud.written);

    let mut off = Bridge::new(Detail::Off);
    off.enter(Level::Info, "admitted", "lock.session", &[]);
    off.exit();
    assert!(off.written.is_empty(), "{:?}", off.written);
}

#[test]
fn a_child_names_a_parent_that_was_actually_written() {
    let mut b = Bridge::new(Detail::Session);
    b.enter(Level::Info, "admitted", "lock.session", &[]);
    b.enter(Level::Info, "admitted", "flow.phase", &[]);
    b.exit();
    b.exit();
    assert_eq!(b.written.len(), 2, "{:?}", b.written);
    let (child, parent) = (&b.written[0], &b.written[1]);
    assert_eq!(field(child, "span"), "flow.phase");
    assert_eq!(field(child, "parent"), field(parent, "id"));
}

#[test]
fn a_filtered_ancestor_is_skipped_rather_than_dangling() {
    let mut b = Bridge::new(Detail::Session);
    b.enter(Level::Info, "admitted", "lock.session", &[]);
    b.enter(Level::Debug, "admitted", "frame.present", &[]);
    b.enter(Level::Info, "admitted", "frame.subtask", &[]);
    b.exit();
    b.exit();
    b.exit();
    let written = b.written;
    let ids: Vec<String> = written.iter().map(|r| field(r, "id")).collect();
    for record in &written {
        let parent = field(record, "parent");
        assert!(parent == "-" || ids.contains(&parent), "record names an unwritten parent: {record}");
    }
    let subtask = written
        .iter()
        .find(|r| field(r, "span") == "frame.subtask")
        .expect("subtask must be written");
    let root = written
        .iter()
        .find(|r| field(r, "span") == "lock.session")
        .expect("root must be written");
    assert_eq!(
        field(subtask, "parent"),
        field(root, "id"),
        "the silent frame span must be skipped, not named"
    );
}

#[test]
fn an_event_carries_its_fields_and_its_span() {
    let mut b = Bridge::new(Detail::Session);
    b.enter(Level::Info, "admitted", "flow.phase", &[]);
    b.event(
        Level::Info,
        "admitted",
        "flow.transition",
        &[("from", "Committing"), ("to", "Locked")],
    );
    b.exit();
    let written = b.written;
    let event = written
        .iter()
        .find(|r| r.starts_with("event="))
        .unwrap_or_else(|| panic!("no event in {written:?}"));
    assert_eq!(field(event, "event"), "flow.transition");
    assert_eq!(field(event, "from"), "Committing");
    assert_eq!(field(event, "to"), "Locked");
    let span = written.iter().find(|r| r.starts_with("span=")).unwrap();
    assert_eq!(field(event, "parent"), field(span, "id"));
}

#[test]
fn a_plain_log_macro_does_not_put_a_source_path_in_the_record() {
    assert_eq!(event_name("event src/adv.rs:104"), "log");
    assert_eq!(event_name("flow.transition"), "flow.transition");

    let mut b = Bridge::new(Detail::Session);
    b.event(
        Level::Info,
        "admitted",
        "event src/adv.rs:104",
        &[("message", "connected"), ("peer", "org.freedesktop.login1")],
    );
    let event = b.written.iter().find(|r| r.starts_with("event=")).unwrap();
    assert_eq!(field(event, "event"), "log");
    assert!(!event.contains(".rs"), "source path leaked: {event}");
    assert_eq!(field(event, "message"), "connected");
    assert_eq!(field(event, "peer"), "org.freedesktop.login1");
    assert_eq!(field(event, "parent"), "-");
}

#[test]
fn field_values_are_encoded_like_the_crate_s_own_api() {
    let mut b = Bridge::new(Detail::Session);
    b.enter(
        Level::Info,
        "admitted",
        "lock.session",
        &[("note", "two words"), ("bad", "a=b\nspan=forged")],
    );
    b.exit();
    assert_eq!(b.written.len(), 1, "a value must not split a record");
    assert_eq!(field(&b.written[0], "note"), "two%20words");
    assert_eq!(field(&b.written[0], "bad"), "a%3Db%0Aspan%3Dforged");
}

#[test]
fn a_foreign_span_s_fields_are_never_kept() {
    let mut b = Bridge::new(Detail::Frames);
    let foreign = b.enter(Level::Info, "zbus", "dbus.call", &[]);
    b.layer.record(foreign, Level::Info, "zbus", " value=counted");
    assert_eq!(b.layer.id_of(foreign), None);
    b.exit();
    assert!(b.written.is_empty());

    let mut b = Bridge::new(Detail::Session);
    let mine = b.enter(Level::Info, "admitted", "lock.session", &[]);
    b.layer.record(mine, Level::Info, "admitted", &attribute("value", "counted"));
    b.exit();
    assert_eq!(field(&b.written[0], "value"), "counted");
}

#[test]
fn open_spans_are_closed_and_marked_when_the_process_exits() {
    let mut b = Bridge::new(Detail::Session);
    let raw = b.enter(Level::Info, "admitted", "lock.session", &[]);
    assert!(b.written.is_empty(), "nothing written while open");

    b.exit_process();
    assert_eq!(b.written.len(), 1, "{:?}", b.written);
    assert_eq!(field(&b.written[0], "span"), "lock.session");
    assert_eq!(
        field(&b.written[0], "status"),
        "exit",
        "a cut-short span must say so: {}",
        b.written[0]
    );

    assert!(b.layer.close(raw).is_none(), "a span closed by exit must not be written again on drop");
    b.exit_process();
    assert_eq!(b.written.len(), 1);
}

#[test]
fn open_spans_close_newest_first_at_exit() {
    let mut b = Bridge::new(Detail::Session);
    b.enter(Level::Info, "admitted", "outer", &[]);
    b.enter(Level::Info, "admitted", "inner", &[]);
    b.exit_process();
    let names: Vec<String> = b.written.iter().map(|r| field(r, "span")).collect();
    assert_eq!(names, ["inner", "outer"]);
}

#[test]
fn the_parent_is_the_nearest_recorded_ancestor() {
    let mut b = Bridge::new(Detail::Session);
    let root = b.enter(Level::Info, "admitted", "root", &[]);
    let frame = b.enter(Level::Debug, "admitted", "frame", &[]);
    let root_id = b.layer.id_of(root).unwrap();
    assert_eq!(b.layer.id_of(frame), None);
    assert_eq!(b.layer.parent_among(&[frame, root]), Some(root_id.clone()));
    assert_eq!(b.layer.parent_among(&[frame]), None);
    assert_eq!(b.layer.parent_among(&[]), None);
    assert_eq!(b.layer.detail(), Detail::Session);
    assert!(b.layer.records(Level::Warn, "admitted"));
    assert!(!b.layer.records(Level::Debug, "admitted"));
    assert!(!b.layer.records(Level::Warn, "other"));
}

#[test]
fn the_seed_is_the_random_bytes_or_the_clock_and_pid() {
    assert_eq!(seed_from(Some([1, 0, 0, 0, 0, 0, 0, 0]), 99, 7), 1);
    assert_eq!(seed_from(Some([0, 0, 0, 0, 0, 0, 0, 1]), 99, 7), 1 << 56);
    assert_eq!(
        seed_from(Some([0xef, 0xcd, 0xab, 0x89, 0x67, 0x45, 0x23, 0x01]), 0, 0),
        0x0123_4567_89ab_cdef
    );
    assert_eq!(seed_from(None, 0, 1), (1 << 32) | 1);
    assert_eq!(seed_from(None, 0xff, 0), 0xff);
    assert_ne!(
        id_from(seed_from(None, 5, 100), 0, 8),
        id_from(seed_from(None, 5, 101), 0, 8),
        "the pid must reach a span id"
    );
}

#[test]
fn the_level_hint_follows_the_detail_tier() {
    assert_eq!(level_hint(Detail::Off), None);
    assert_eq!(level_hint(Detail::Session), Some(Level::Info));
    assert_eq!(level_hint(Detail::Frames), Some(Level::Trace));
}

fn num(line: &str, key: &str) -> u128 {
    field(line, key).parse().unwrap()
}

#[test]
fn a_span_is_an_interval_so_overlap_is_visible() {
    let t = adopt(Detail::Frames);
    let root = t.span("lock.session", SEED, 1, 0);

    let mut frame = root.frame_child("frame.present", SEED, 2, 1_000).attr("output", "DP-1");
    let event = root
        .event("flow.transition", &[("from", "Committing"), ("to", "Locked")], 0, 3_000)
        .unwrap();
    let frame_line = frame.finish(None, 1, 4_000).unwrap();
    let (start, end) = (num(&frame_line, "t_us"), num(&frame_line, "t_us") + num(&frame_line, "dur_us"));
    let at = num(&event, "t_us");
    assert!(start < at && at < end, "transition at {at} should fall inside frame [{start}, {end})");

    let mut done = root.frame_child("frame.present", SEED, 3, 10_000);
    let done_line = done.finish(None, 2, 500).unwrap();
    let after = root.event("flow.transition", &[], 3, 12_000).unwrap();
    let end = num(&done_line, "t_us") + num(&done_line, "dur_us");
    assert!(end < num(&after, "t_us"), "a transition after the frame must read as after it");
}

#[test]
fn frame_work_is_not_reported_as_zero() {
    let t = adopt(Detail::Frames);
    let root = t.span("lock.session", SEED, 1, 0);
    let mut span = root.frame_child("frame.present", SEED, 2, 7);
    let line = span.finish(None, 0, 400).unwrap();
    assert!(num(&line, "dur_us") >= 300, "sub-millisecond work must be measurable: {line}");
    assert_eq!(num(&line, "t_us"), 7);
}

#[test]
fn seq_is_written_as_given_for_spans_and_events_alike() {
    let t = adopt(Detail::Session);
    let root = t.span("lock.session", SEED, 1, 0);
    let mut seqs = Vec::new();
    let mut next = 0u64;
    for i in 0..4u64 {
        seqs.push(num(&root.event("flow.transition", &[], next, 0).unwrap(), "seq"));
        next += 1;
        let mut child = root.child("flow.phase", SEED, 10 + i, 0);
        seqs.push(num(&child.finish(None, next, 0).unwrap(), "seq"));
        next += 1;
    }
    assert!(seqs.windows(2).all(|w| w[0] < w[1]), "{seqs:?}");
}

#[test]
fn both_apis_write_records_a_reader_can_join() {
    let mut b = Bridge::new(Detail::Session);
    b.enter(Level::Info, "admitted", "lock.session", &[]);
    b.exit();
    let via_layer = b.written.pop().expect("layer record");

    let mut direct = adopt(Detail::Session).span("lock.session", SEED, 99, 0);
    let via_direct = direct.finish(None, 1, 0).expect("direct record");

    assert_eq!(field(&via_layer, "trace"), field(&via_direct, "trace"));
    let keys = |line: &str| -> Vec<String> {
        line.split_whitespace()
            .filter_map(|t| t.split_once('='))
            .map(|(k, _)| k.to_string())
            .collect()
    };
    assert_eq!(keys(&via_layer), keys(&via_direct), "field sets must match");
    assert_ne!(field(&via_layer, "id"), field(&via_direct, "id"));
}

struct CloseOnExit(Arc<Mutex<SpanLinesLayer>>, Arc<Mutex<Vec<String>>>);

impl AtExit for CloseOnExit {
    fn flush(&self) {
        let closed = self.0.lock().unwrap().close_open();
        for span in &closed {
            self.1.lock().unwrap().push(span.render(TRACE, 0, 0, Some("exit")));
        }
    }
}

#[test]
fn an_installed_layer_survives_repeated_flushes() {
    let layer = Arc::new(Mutex::new(SpanLinesLayer::with_detail(&["exit_path"], Detail::Session)));
    let written = Arc::new(Mutex::new(Vec::new()));
    let mut hooks = ExitHooks::new();
    hooks.at_exit(Arc::new(CloseOnExit(layer.clone(), written.clone())));

    let open = |raw: u64, name: &'static str| {
        layer.lock().unwrap().open_span(
            raw,
            Level::Info,
            "exit_path",
            name,
            String::new(),
            SEED,
            raw,
            &[],
            Instant::now(),
            0,
        )
    };
    assert!(open(1, "lock.session"));
    assert!(written.lock().unwrap().is_empty(), "nothing is written while open");

    hooks.snapshot().flush();
    let first = std::mem::take(&mut *written.lock().unwrap());
    assert_eq!(first.len(), 1, "{first:?}");
    assert_eq!(field(&first[0], "span"), "lock.session");
    assert_eq!(field(&first[0], "status"), "exit");

    assert!(open(2, "lock.session.again"));
    hooks.snapshot().flush();
    let second = std::mem::take(&mut *written.lock().unwrap());
    assert_eq!(second.len(), 1, "flush must remain armed for a later exit(): {second:?}");
    assert_eq!(field(&second[0], "span"), "lock.session.again");
}

#[test]
fn the_all_zero_guard_is_the_one_place_two_span_ids_meet() {
    // With seed 0 these counters' first accumulators are 0 and 1: the guard
    // turns the all-zero id into the other one.
    let zero = id_from(0, 0x7951_35d0_ed01_b3e1, 8);
    let one = id_from(0, 0xe174_8012_78de_f537, 8);
    assert_eq!(zero, "0000000000000001");
    assert_eq!(one, "0000000000000001");
    // Wider ids keep them apart: the guard only touches the last digit.
    assert_ne!(id_from(0, 0x7951_35d0_ed01_b3e1, 16), id_from(0, 0xe174_8012_78de_f537, 16));
}

#[test]
fn a_child_minted_from_a_fresh_counter_has_its_own_id() {
    let t = adopt(Detail::Session);
    let root = t.span("lock.session", SEED, 1, 0);
    let child = root.child("flow.phase", SEED, 2, 0);
    assert_ne!(child.id(), root.id());
    assert_eq!(child.id(), id_from(SEED, 2, 8));
    // The id is the counter's: reusing the parent's counter reuses its id.
    assert_eq!(root.child("flow.phase", SEED, 1, 0).id(), root.id());
}
