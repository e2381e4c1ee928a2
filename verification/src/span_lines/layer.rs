//! The state and the decisions of the `tracing` bridge.
//!
//! The bridge writes the same record format as the crate's own API. Which
//! spans and events it admits, at which detail tier, which ancestor a record
//! names as its parent, and what it writes when a span closes or the process
//! exits are all decided here, from plain values; the subscriber plumbing
//! hands those values in and writes out what comes back.

use std::time::Instant;

use vstd::prelude::*;

use crate::span_lines::detail::Detail;
use crate::span_lines::encode::{encode, encoded};
use crate::span_lines::ids::{id_from, lemma_id_shape, spec_id_from};
use crate::span_lines::traceparent::is_span_id;
use crate::span_lines::trace::{
    attr_text, attrs_text, event_line, opt_view, parent_text, span_line, SpanView, TraceView,
};
use crate::text::{chars_of, decimal, has_prefix, push_char, push_decimal, push_str, starts_with};

verus! {

/// `std::time::Instant`, carried through as the moment an open span started.
#[verifier::external_type_specification]
#[verifier::external_body]
pub struct ExInstant(Instant);

/// A `tracing` verbosity level, quietest first.
#[derive(Clone, Copy, PartialEq, Eq, Debug, Structural)]
pub enum Level {
    Error,
    Warn,
    Info,
    Debug,
    Trace,
}

/// `INFO` and above is the session tier; `DEBUG` and `TRACE` are frames.
pub open spec fn spec_tier(level: Level) -> Detail {
    match level {
        Level::Error | Level::Warn | Level::Info => Detail::Session,
        Level::Debug | Level::Trace => Detail::Frames,
    }
}

/// The detail tier a `tracing` level carries: `INFO`, `WARN` and `ERROR`
/// are session-tier, `DEBUG` and `TRACE` frame-tier.
pub fn tier(level: Level) -> (d: Detail)
    ensures
        d == spec_tier(level),
{
    match level {
        Level::Error | Level::Warn | Level::Info => Detail::Session,
        Level::Debug | Level::Trace => Detail::Frames,
    }
}

/// The most verbose level a layer at `detail` ever records, `None` when it
/// records nothing: what it tells the dispatcher, so that callsites it
/// would drop are not enabled at all.
pub fn level_hint(detail: Detail) -> (l: Option<Level>)
    ensures
        match l {
            Some(level) => detail != Detail::Off && spec_tier(level) == detail && forall|other: Level|
                #[trigger] spec_tier(other).rank() <= detail.rank() ==> level_rank(other) <= level_rank(level),
            None => detail == Detail::Off,
        },
{
    match detail {
        Detail::Off => None,
        Detail::Session => Some(Level::Info),
        Detail::Frames => Some(Level::Trace),
    }
}

/// Position from quietest (`Error`) to most verbose (`Trace`).
pub open spec fn level_rank(level: Level) -> nat {
    match level {
        Level::Error => 0,
        Level::Warn => 1,
        Level::Info => 2,
        Level::Debug => 3,
        Level::Trace => 4,
    }
}

/// `target` is `prefix` itself or a module below it (`prefix::...`).
pub open spec fn matches_prefix(prefix: Seq<char>, target: Seq<char>) -> bool {
    &&& starts_with(target, prefix)
    &&& (target.len() == prefix.len() || (target.len() >= prefix.len() + 2 && target[prefix.len() as int]
        == ':' && target[prefix.len() + 1int] == ':'))
}

pub open spec fn admits_target(prefixes: Seq<Seq<char>>, target: Seq<char>) -> bool {
    exists|i: int| 0 <= i < prefixes.len() && matches_prefix(#[trigger] prefixes[i], target)
}

/// The name recorded for an event: `tracing` synthesises `event <file>:<line>`
/// for a plain log macro, and that becomes `log`.
pub open spec fn spec_event_name(name: Seq<char>) -> Seq<char> {
    if starts_with(name, "event "@) {
        "log"@
    } else {
        name
    }
}

/// ` key=value`, both encoded: one field of a span or event.
pub fn attribute(key: &str, value: &str) -> (a: String)
    ensures
        a@ == attr_text(key@, value@),
{
    let k = encode(key);
    let v = encode(value);
    let mut a = String::new();
    push_char(&mut a, ' ');
    push_str(&mut a, k.as_str());
    push_char(&mut a, '=');
    push_str(&mut a, v.as_str());
    assert(a@ =~= attr_text(key@, value@));
    a
}

/// The name to record for an event.
///
/// A name starting `event ` is the one `tracing` synthesises from the call
/// site; recording it would put a source path in the journal and change the
/// key whenever a line above the call moved, so it becomes `log`.
pub fn event_name(name: &'static str) -> (n: &'static str)
    ensures
        n@ == spec_event_name(name@),
{
    let cs = chars_of(name);
    let p = chars_of("event ");
    let hit = has_prefix(&cs, &p);
    if hit {
        "log"
    } else {
        name
    }
}

/// What an [`OpenSpan`] holds.
pub struct OpenSpanView {
    pub name: Seq<char>,
    pub id: Seq<char>,
    pub parent: Option<Seq<char>>,
    pub start_us: nat,
    /// The moment it was opened, for measuring its duration.
    pub started: Instant,
    pub attrs: Seq<char>,
    pub needs: Detail,
}

/// State kept for one span the bridge opened and has not closed.
pub struct OpenSpan {
    name: &'static str,
    /// Our id, not tracing's: tracing ids are per-subscriber and reused after
    /// close, which would let two spans in one trace share an id.
    id: String,
    parent: Option<String>,
    started: Instant,
    start_us: u128,
    attrs: String,
    needs: Detail,
}

impl View for OpenSpan {
    type V = OpenSpanView;

    closed spec fn view(&self) -> OpenSpanView {
        OpenSpanView {
            name: self.name@,
            id: self.id@,
            parent: opt_view(self.parent),
            start_us: self.start_us as nat,
            started: self.started,
            attrs: self.attrs@,
            needs: self.needs,
        }
    }
}

pub open spec fn status_text(status: Option<Seq<char>>) -> Seq<char> {
    match status {
        Some(s) => attr_text("status"@, s),
        None => Seq::<char>::empty(),
    }
}

/// The record the bridge writes for a span of trace `trace_id`.
pub open spec fn open_span_line(
    v: OpenSpanView,
    trace_id: Seq<char>,
    seq: nat,
    dur_us: nat,
    status: Option<Seq<char>>,
) -> Seq<char> {
    "span="@ + encoded(v.name) + " trace="@ + trace_id + " id="@ + v.id + " parent="@ + parent_text(
        v.parent,
    ) + " seq="@ + decimal(seq) + " t_us="@ + decimal(v.start_us) + " dur_us="@ + decimal(dur_us)
        + v.attrs + status_text(status)
}

/// The record the bridge writes for an event of trace `trace_id`.
pub open spec fn layer_event_line(
    name: Seq<char>,
    trace_id: Seq<char>,
    parent: Option<Seq<char>>,
    seq: nat,
    t_us: nat,
    fields: Seq<char>,
) -> Seq<char> {
    "event="@ + encoded(spec_event_name(name)) + " trace="@ + trace_id + " parent="@ + parent_text(
        parent,
    ) + " seq="@ + decimal(seq) + " t_us="@ + decimal(t_us) + fields
}

impl OpenSpan {
    /// When the span started, for measuring its duration.
    pub fn started(&self) -> (i: &Instant)
        ensures
            *i == self@.started,
    {
        &self.started
    }

    pub fn id(&self) -> (r: &str)
        ensures
            r@ == self@.id,
    {
        self.id.as_str()
    }

    /// The record for this span, in trace `trace_id`, with sequence number
    /// `seq`, lasting `dur_us`, and ` status=<status>` if a status is given.
    pub fn render(&self, trace_id: &str, seq: u64, dur_us: u128, status: Option<&str>) -> (line: String)
        ensures
            line@ == open_span_line(
                self@,
                trace_id@,
                seq as nat,
                dur_us as nat,
                match status {
                    Some(s) => Some(s@),
                    None => None,
                },
            ),
    {
        let mut line = String::new();
        push_str(&mut line, "span=");
        let n = encode(self.name);
        push_str(&mut line, n.as_str());
        push_str(&mut line, " trace=");
        push_str(&mut line, trace_id);
        push_str(&mut line, " id=");
        push_str(&mut line, self.id.as_str());
        push_str(&mut line, " parent=");
        match &self.parent {
            Some(p) => push_str(&mut line, p.as_str()),
            None => push_char(&mut line, '-'),
        }
        push_str(&mut line, " seq=");
        push_decimal(&mut line, seq as u128);
        push_str(&mut line, " t_us=");
        push_decimal(&mut line, self.start_us);
        push_str(&mut line, " dur_us=");
        push_decimal(&mut line, dur_us);
        push_str(&mut line, self.attrs.as_str());
        if let Some(st) = status {
            let a = attribute("status", st);
            push_str(&mut line, a.as_str());
        }
        line
    }
}

/// What a [`SpanLinesLayer`] holds.
pub struct LayerView {
    pub targets: Seq<Seq<char>>,
    pub detail: Detail,
    /// Spans opened and not yet closed, oldest first, by tracing's id.
    pub open: Seq<(u64, OpenSpanView)>,
}

/// The first position of `raw` among the open spans.
pub open spec fn first_index(open: Seq<(u64, OpenSpanView)>, raw: u64) -> Option<int>
    decreases open.len(),
{
    if open.len() == 0 {
        None
    } else if open[0].0 == raw {
        Some(0)
    } else {
        match first_index(open.drop_first(), raw) {
            Some(i) => Some(i + 1),
            None => None,
        }
    }
}

/// Our id for the open span tracing calls `raw`.
pub open spec fn spec_id_of(open: Seq<(u64, OpenSpanView)>, raw: u64) -> Option<Seq<char>> {
    match first_index(open, raw) {
        Some(i) => Some(open[i].1.id),
        None => None,
    }
}

/// The id of the nearest of `ancestors` (nearest first) this layer recorded.
pub open spec fn spec_parent_among(open: Seq<(u64, OpenSpanView)>, ancestors: Seq<u64>) -> Option<
    Seq<char>,
>
    decreases ancestors.len(),
{
    if ancestors.len() == 0 {
        None
    } else {
        match spec_id_of(open, ancestors[0]) {
            Some(id) => Some(id),
            None => spec_parent_among(open, ancestors.drop_first()),
        }
    }
}

pub proof fn lemma_first_index(open: Seq<(u64, OpenSpanView)>, raw: u64)
    ensures
        first_index(open, raw) matches Some(i) ==> 0 <= i < open.len() && open[i].0 == raw && (
        forall|j: int| 0 <= j < i ==> open[j].0 != raw),
        first_index(open, raw) is None ==> forall|j: int| 0 <= j < open.len() ==> open[j].0 != raw,
    decreases open.len(),
{
    if open.len() > 0 {
        lemma_first_index(open.drop_first(), raw);
        if open[0].0 != raw {
            assert forall|j: int| 0 < j < open.len() implies open[j].0 == open.drop_first()[j
                - 1].0 by {}
        }
    }
}

/// A record never names a parent that is not an open, recorded span: the
/// parent chosen among the ancestors is the id of one of the open spans.
pub proof fn lemma_parent_is_recorded(open: Seq<(u64, OpenSpanView)>, ancestors: Seq<u64>)
    ensures
        spec_parent_among(open, ancestors) matches Some(id) ==> exists|i: int|
            0 <= i < open.len() && open[i].1.id == id,
    decreases ancestors.len(),
{
    if ancestors.len() > 0 {
        lemma_first_index(open, ancestors[0]);
        lemma_parent_is_recorded(open, ancestors.drop_first());
    }
}

/// Admission is over every listed prefix, not the first alone: a target is
/// admitted exactly when, for some prefix in the list, it is that prefix or
/// begins with that prefix followed by `::`.
pub proof fn lemma_admission(prefixes: Seq<Seq<char>>, target: Seq<char>)
    ensures
        admits_target(prefixes, target) <==> exists|i: int|
            0 <= i < prefixes.len() && (target == #[trigger] prefixes[i] || (prefixes[i] + seq![
                ':',
                ':',
            ]).is_prefix_of(target)),
        forall|i: int|
            0 <= i < prefixes.len() && (target == #[trigger] prefixes[i] || (prefixes[i] + seq![
                ':',
                ':',
            ]).is_prefix_of(target)) ==> admits_target(prefixes, target),
{
    assert forall|p: Seq<char>|
        matches_prefix(p, target) <==> (target == p || (p + seq![':', ':']).is_prefix_of(
            target,
        )) by {
        let q = p + seq![':', ':'];
        if matches_prefix(p, target) {
            if target.len() != p.len() {
                assert(target.subrange(0, q.len() as int) =~= q) by {
                    assert(target.take(p.len() as int) == p);
                    assert forall|k: int| 0 <= k < p.len() implies target[k] == p[k] by {
                        assert(target.take(p.len() as int)[k] == target[k]);
                    }
                }
            } else {
                assert(target =~= p) by {
                    assert(target.take(p.len() as int) =~= target);
                }
            }
        }
        if target == p {
            assert(target.take(p.len() as int) =~= p);
        }
        if q.is_prefix_of(target) {
            assert(target.take(p.len() as int) =~= p) by {
                assert forall|k: int| 0 <= k < p.len() implies target[k] == p[k] by {
                    assert(target.subrange(0, q.len() as int)[k] == q[k]);
                }
            }
            assert(target[p.len() as int] == target.subrange(0, q.len() as int)[p.len() as int]);
            assert(target[p.len() + 1int] == target.subrange(0, q.len() as int)[p.len() + 1int]);
        }
    }
    if admits_target(prefixes, target) {
        let i = choose|i: int| 0 <= i < prefixes.len() && matches_prefix(#[trigger] prefixes[i], target);
        assert(matches_prefix(prefixes[i], target));
    }
    assert forall|i: int|
        0 <= i < prefixes.len() && (target == #[trigger] prefixes[i] || (prefixes[i] + seq![
            ':',
            ':',
        ]).is_prefix_of(target)) implies admits_target(prefixes, target) by {
        assert(matches_prefix(prefixes[i], target));
    }
}

/// The parent named is the nearest recorded ancestor: when `ancestors[k]`
/// is the first of the ancestors (nearest first) that has an open, recorded
/// span, and `open[i]` is the first such span for it, the parent is that
/// span's id; an ancestor farther away is never preferred.
pub proof fn lemma_nearest_recorded_parent(
    open: Seq<(u64, OpenSpanView)>,
    ancestors: Seq<u64>,
    k: int,
    i: int,
)
    requires
        0 <= k < ancestors.len(),
        0 <= i < open.len(),
        open[i].0 == ancestors[k],
        forall|m: int| 0 <= m < i ==> open[m].0 != ancestors[k],
        forall|j: int, m: int|
            0 <= j < k && 0 <= m < open.len() ==> #[trigger] open[m].0 != #[trigger] ancestors[j],
    ensures
        spec_parent_among(open, ancestors) == Some(open[i].1.id),
    decreases k,
{
    lemma_first_index(open, ancestors[0]);
    if k == 0 {
        match first_index(open, ancestors[0]) {
            Some(f) => {
                if f < i {
                    assert(open[f].0 != ancestors[0]);
                }
                if f > i {
                    assert(open[i].0 != ancestors[0]);
                }
            },
            None => {
                assert(open[i].0 != ancestors[0]);
            },
        }
    } else {
        match first_index(open, ancestors[0]) {
            Some(f) => {
                assert(open[f].0 != ancestors[0]);
            },
            None => {},
        }
        let rest = ancestors.drop_first();
        assert forall|j: int, m: int|
            0 <= j < k - 1 && 0 <= m < open.len() implies #[trigger] open[m].0 != #[trigger] rest[j] by {
            assert(rest[j] == ancestors[j + 1]);
        }
        assert(rest[k - 1] == ancestors[k]);
        lemma_nearest_recorded_parent(open, rest, k - 1, i);
    }
}

/// No parent is named when none of the ancestors has an open, recorded span.
pub proof fn lemma_no_recorded_parent(open: Seq<(u64, OpenSpanView)>, ancestors: Seq<u64>)
    requires
        forall|j: int, m: int|
            0 <= j < ancestors.len() && 0 <= m < open.len() ==> #[trigger] open[m].0 != #[trigger] ancestors[j],
    ensures
        spec_parent_among(open, ancestors) is None,
    decreases ancestors.len(),
{
    if ancestors.len() > 0 {
        lemma_first_index(open, ancestors[0]);
        match first_index(open, ancestors[0]) {
            Some(f) => {
                assert(open[f].0 != ancestors[0]);
            },
            None => {},
        }
        let rest = ancestors.drop_first();
        assert forall|j: int, m: int|
            0 <= j < rest.len() && 0 <= m < open.len() implies #[trigger] open[m].0 != #[trigger] rest[j] by {
            assert(rest[j] == ancestors[j + 1]);
        }
        lemma_no_recorded_parent(open, rest);
    }
}

/// A `tracing` bridge's state: the admitted target prefixes, the detail
/// tier, and the spans opened and not yet closed.
pub struct SpanLinesLayer {
    targets: Vec<&'static str>,
    detail: Detail,
    open: Vec<(u64, OpenSpan)>,
}

impl View for SpanLinesLayer {
    type V = LayerView;

    closed spec fn view(&self) -> LayerView {
        LayerView {
            targets: self.targets@.map_values(|t: &'static str| t@),
            detail: self.detail,
            open: self.open@.map_values(|e: (u64, OpenSpan)| (e.0, e.1@)),
        }
    }
}

impl LayerView {
    /// Spans and events at `level` from `target` are recorded.
    pub open spec fn records(self, level: Level, target: Seq<char>) -> bool {
        &&& self.detail != Detail::Off
        &&& self.detail.rank() >= spec_tier(level).rank()
        &&& admits_target(self.targets, target)
    }
}

impl SpanLinesLayer {
    /// Every open span is one the layer's tier lets through, so closing it
    /// always writes it.
    #[verifier::type_invariant]
    spec fn open_spans_are_written(self) -> bool {
        forall|i: int|
            0 <= i < self.open@.len() ==> #[trigger] self.open@[i].1.needs.rank() <= self.detail.rank()
                && is_span_id(self.open@[i].1.id@)
    }

    /// A layer admitting only spans and events whose target is one of
    /// `target_prefixes` or a module below one, at an explicit detail tier,
    /// with nothing open.
    pub fn with_detail(target_prefixes: &[&'static str], detail: Detail) -> (l: SpanLinesLayer)
        ensures
            l@.targets == target_prefixes@.map_values(|t: &'static str| t@),
            l@.detail == detail,
            l@.open.len() == 0,
    {
        let mut targets: Vec<&'static str> = Vec::new();
        let mut i: usize = 0;
        while i < target_prefixes.len()
            invariant
                i <= target_prefixes@.len(),
                targets@ == target_prefixes@.take(i as int),
            decreases target_prefixes@.len() - i,
        {
            targets.push(target_prefixes[i]);
            i = i + 1;
            assert(targets@ =~= target_prefixes@.take(i as int));
        }
        assert(target_prefixes@.take(i as int) =~= target_prefixes@);
        let l = SpanLinesLayer { targets, detail, open: Vec::new() };
        assert(l@.targets =~= target_prefixes@.map_values(|t: &'static str| t@));
        assert(l@.open =~= Seq::<(u64, OpenSpanView)>::empty());
        l
    }

    pub fn detail(&self) -> (d: Detail)
        ensures
            d == self@.detail,
    {
        self.detail
    }

    /// `target` is one of the admitted prefixes or a module below one.
    /// A prefix matches only on a module boundary: `admitted` does not admit
    /// `admittedly`.
    pub fn admits(&self, target: &str) -> (b: bool)
        ensures
            b == admits_target(self@.targets, target@),
    {
        let t = chars_of(target);
        let mut k: usize = 0;
        while k < self.targets.len()
            invariant
                k <= self.targets@.len(),
                t@ == target@,
                forall|j: int|
                    0 <= j < k ==> !matches_prefix(#[trigger] self@.targets[j], target@),
            decreases self.targets@.len() - k,
        {
            let p = chars_of(self.targets[k]);
            assert(p@ == self@.targets[k as int]);
            if has_prefix(&t, &p) {
                let n = p.len();
                if t.len() == n || (t.len() - n >= 2 && t[n] == ':' && t[n + 1] == ':') {
                    assert(matches_prefix(self@.targets[k as int], target@));
                    return true;
                }
            }
            k = k + 1;
        }
        false
    }

    /// Spans and events at `level` from `target` are recorded: the layer is
    /// not off, its tier reaches the level's, and the target is admitted.
    pub fn records(&self, level: Level, target: &str) -> (b: bool)
        ensures
            b == self@.records(level, target@),
    {
        self.detail != Detail::Off && self.detail.at_least(tier(level)) && self.admits(target)
    }

    fn position(&self, raw: u64) -> (r: Option<usize>)
        ensures
            match r {
                Some(i) => first_index(self@.open, raw) == Some(i as int),
                None => first_index(self@.open, raw) is None,
            },
    {
        proof {
            lemma_first_index(self@.open, raw);
        }
        let mut i: usize = 0;
        while i < self.open.len()
            invariant
                i <= self.open@.len(),
                forall|j: int| 0 <= j < i ==> self@.open[j].0 != raw,
            decreases self.open@.len() - i,
        {
            assert(self@.open[i as int].0 == self.open@[i as int].0);
            if self.open[i].0 == raw {
                proof {
                    lemma_first_index(self@.open, raw);
                    match first_index(self@.open, raw) {
                        Some(k) => {
                            if k > i {
                                assert(self@.open[i as int].0 != raw);
                            }
                        },
                        None => {},
                    }
                }
                return Some(i);
            }
            i = i + 1;
        }
        None
    }

    /// Our id for the open span tracing calls `raw`, if this layer recorded it.
    pub fn id_of(&self, raw: u64) -> (r: Option<String>)
        ensures
            opt_view(r) == spec_id_of(self@.open, raw),
    {
        match self.position(raw) {
            Some(i) => {
                proof {
                    lemma_first_index(self@.open, raw);
                }
                Some(self.open[i].1.id.clone())
            },
            None => None,
        }
    }

    /// The id of the nearest of `ancestors` (nearest first) this layer
    /// recorded, so a record never names a span that was filtered out and
    /// never printed.
    pub fn parent_among(&self, ancestors: &[u64]) -> (r: Option<String>)
        ensures
            opt_view(r) == spec_parent_among(self@.open, ancestors@),
    {
        let mut i: usize = 0;
        assert(ancestors@.subrange(0, ancestors@.len() as int) =~= ancestors@);
        while i < ancestors.len()
            invariant
                i <= ancestors@.len(),
                spec_parent_among(self@.open, ancestors@) == spec_parent_among(
                    self@.open,
                    ancestors@.subrange(i as int, ancestors@.len() as int),
                ),
            decreases ancestors@.len() - i,
        {
            let ghost rest = ancestors@.subrange(i as int, ancestors@.len() as int);
            assert(rest[0] == ancestors@[i as int]);
            assert(rest.drop_first() =~= ancestors@.subrange(i + 1, ancestors@.len() as int));
            let found = self.id_of(ancestors[i]);
            if found.is_some() {
                return found;
            }
            i = i + 1;
        }
        None
    }

    /// A span opened: recorded (as the newest open span) if its level and
    /// target are recorded, with its parent the nearest recorded ancestor
    /// and its id the 8-byte [`id_from`] of `seed` and `counter`.
    /// Returns whether it was recorded.
    pub fn open_span(
        &mut self,
        raw: u64,
        level: Level,
        target: &str,
        name: &'static str,
        fields: String,
        seed: u64,
        counter: u64,
        ancestors: &[u64],
        started: Instant,
        start_us: u128,
    ) -> (recorded: bool)
        ensures
            recorded == old(self)@.records(level, target@),
            recorded ==> final(self)@ == (LayerView {
                open: old(self)@.open.push(
                    (
                        raw,
                        OpenSpanView {
                            name: name@,
                            id: spec_id_from(seed, counter, 8),
                            parent: spec_parent_among(old(self)@.open, ancestors@),
                            start_us: start_us as nat,
                            started,
                            attrs: fields@,
                            needs: spec_tier(level),
                        },
                    ),
                ),
                ..old(self)@
            }),
            !recorded ==> final(self)@ == old(self)@,
    {
        proof {
            use_type_invariant(&*self);
        }
        if !self.records(level, target) {
            return false;
        }
        let parent = self.parent_among(ancestors);
        let id = id_from(seed, counter, 8);
        proof {
            lemma_id_shape(seed, counter, 8);
        }
        let span = OpenSpan {
            name,
            id,
            parent,
            started,
            start_us,
            attrs: fields,
            needs: tier(level),
        };
        let ghost before = self@;
        let mut open = Vec::new();
        std::mem::swap(&mut open, &mut self.open);
        open.push((raw, span));
        self.open = open;
        assert(self@.open =~= before.open.push((raw, span@)));
        assert(self@.targets =~= before.targets);
        true
    }

    /// Fields recorded on an open span: appended to its attributes if its
    /// level and target are recorded and this layer holds it; nothing is
    /// formatted or kept for anything else.
    pub fn record(&mut self, raw: u64, level: Level, target: &str, fields: &str)
        ensures
            (old(self)@.records(level, target@) && first_index(old(self)@.open, raw) is Some) ==> {
                let i = first_index(old(self)@.open, raw)->0;
                let e = old(self)@.open[i];
                final(self)@ == (LayerView {
                    open: old(self)@.open.update(
                        i,
                        (e.0, OpenSpanView { attrs: e.1.attrs + fields@, ..e.1 }),
                    ),
                    ..old(self)@
                })
            },
            !(old(self)@.records(level, target@) && first_index(old(self)@.open, raw) is Some)
                ==> final(self)@ == old(self)@,
    {
        proof {
            use_type_invariant(&*self);
        }
        if !self.records(level, target) {
            return;
        }
        if let Some(i) = self.position(raw) {
            proof {
                lemma_first_index(old(self)@.open, raw);
            }
            let ghost before = self@;
            let mut open = Vec::new();
            std::mem::swap(&mut open, &mut self.open);
            let mut entry = open.remove(i);
            push_str(&mut entry.1.attrs, fields);
            let ghost updated = (entry.0, entry.1@);
            open.insert(i, entry);
            self.open = open;
            assert(self@.open =~= before.open.update(i as int, updated));
            assert(self@.targets =~= before.targets);
        }
    }

    /// The record of an event at `level` from `target`, or `None` if it is
    /// not recorded. Its parent is the nearest recorded span among
    /// `ancestors` (nearest first).
    pub fn event(
        &self,
        level: Level,
        target: &str,
        name: &'static str,
        ancestors: &[u64],
        fields: &str,
        trace_id: &str,
        seq: u64,
        t_us: u128,
    ) -> (r: Option<String>)
        ensures
            match r {
                Some(line) => self@.records(level, target@) && line@ == layer_event_line(
                    name@,
                    trace_id@,
                    spec_parent_among(self@.open, ancestors@),
                    seq as nat,
                    t_us as nat,
                    fields@,
                ),
                None => !self@.records(level, target@),
            },
    {
        if !self.records(level, target) {
            return None;
        }
        let parent = self.parent_among(ancestors);
        let mut line = String::new();
        push_str(&mut line, "event=");
        let n = encode(event_name(name));
        push_str(&mut line, n.as_str());
        push_str(&mut line, " trace=");
        push_str(&mut line, trace_id);
        push_str(&mut line, " parent=");
        match &parent {
            Some(p) => push_str(&mut line, p.as_str()),
            None => push_char(&mut line, '-'),
        }
        push_str(&mut line, " seq=");
        push_decimal(&mut line, seq as u128);
        push_str(&mut line, " t_us=");
        push_decimal(&mut line, t_us);
        push_str(&mut line, fields);
        Some(line)
    }

    /// A span closed: it leaves the open set and is returned, to be written.
    /// Every span the layer holds is one its tier lets through, so a span
    /// it recorded is always written when it closes; a span already closed
    /// (by [`SpanLinesLayer::close_open`] too) is not written again.
    pub fn close(&mut self, raw: u64) -> (r: Option<OpenSpan>)
        ensures
            match first_index(old(self)@.open, raw) {
                Some(i) => {
                    &&& final(self)@ == (LayerView { open: old(self)@.open.remove(i), ..old(self)@ })
                    &&& r matches Some(s) && s@ == old(self)@.open[i].1 && is_span_id(s@.id)
                },
                None => final(self)@ == old(self)@ && r is None,
            },
    {
        proof {
            use_type_invariant(&*self);
        }
        match self.position(raw) {
            Some(i) => {
                proof {
                    lemma_first_index(old(self)@.open, raw);
                }
                let ghost before = self@;
                let mut open = Vec::new();
                std::mem::swap(&mut open, &mut self.open);
                let (_, span) = open.remove(i);
                self.open = open;
                assert(self@.open =~= before.open.remove(i as int));
                assert(self@.targets =~= before.targets);
                Some(span)
            },
            None => None,
        }
    }

    /// Every span still open, newest first, leaving none open: what to
    /// write, marked as cut short, when the process exits.
    pub fn close_open(&mut self) -> (closed: Vec<OpenSpan>)
        ensures
            final(self)@ == (LayerView { open: Seq::empty(), ..old(self)@ }),
            closed@.len() == old(self)@.open.len(),
            forall|i: int|
                0 <= i < closed@.len() ==> #[trigger] closed@[i]@ == old(self)@.open[old(
                    self,
                )@.open.len() - 1 - i].1,
            forall|i: int| 0 <= i < closed@.len() ==> is_span_id(#[trigger] closed@[i]@.id),
    {
        proof {
            use_type_invariant(&*self);
        }
        let ghost before = self@;
        let mut open = Vec::new();
        std::mem::swap(&mut open, &mut self.open);
        let mut closed: Vec<OpenSpan> = Vec::new();
        while open.len() > 0
            invariant
                open@.map_values(|e: (u64, OpenSpan)| (e.0, e.1@)) == before.open.take(
                    open@.len() as int,
                ),
                closed@.len() + open@.len() == before.open.len(),
                forall|i: int|
                    0 <= i < closed@.len() ==> #[trigger] closed@[i]@ == before.open[before.open.len()
                        - 1 - i].1,
            decreases open@.len(),
        {
            let ghost n = open@.len();
            let ghost last = open@[n - 1];
            assert(open@.map_values(|e: (u64, OpenSpan)| (e.0, e.1@))[n - 1] == before.open[n - 1]);
            let e = open.pop();
            proof {
                assert(open@.map_values(|e: (u64, OpenSpan)| (e.0, e.1@)) =~= before.open.take(n - 1));
            }
            match e {
                Some((_, span)) => {
                    assert(span@ == before.open[n - 1].1);
                    let ghost prev = closed@;
                    closed.push(span);
                    assert(closed@[prev.len() as int]@ == before.open[before.open.len() - 1 - prev.len()].1);
                },
                None => {},
            }
        }
        assert(self@.open =~= Seq::<(u64, OpenSpanView)>::empty());
        assert(self@.targets =~= before.targets);
        closed
    }
}

/// The bridge writes a span's record byte for byte as the crate's own API
/// writes the same span ended with the same status, so a reader cannot
/// tell which API wrote it.
pub proof fn lemma_bridge_span_matches_api(
    o: OpenSpanView,
    t: TraceView,
    seq: nat,
    dur_us: nat,
    status: Option<Seq<char>>,
)
    ensures
        open_span_line(o, t.id, seq, dur_us, status) == span_line(
            SpanView {
                trace: t,
                name: o.name,
                id: o.id,
                parent: o.parent,
                start_us: o.start_us,
                attrs: o.attrs + status_text(status),
                needs: o.needs,
                emitted: true,
            },
            seq,
            dur_us,
        ),
{
    let v = SpanView {
        trace: t,
        name: o.name,
        id: o.id,
        parent: o.parent,
        start_us: o.start_us,
        attrs: o.attrs + status_text(status),
        needs: o.needs,
        emitted: true,
    };
    assert(open_span_line(o, t.id, seq, dur_us, status) =~= span_line(v, seq, dur_us));
}

/// The bridge writes an event with a stable name, inside a recorded span,
/// byte for byte as the crate's own API writes it from that span.
pub proof fn lemma_bridge_event_matches_api(
    v: SpanView,
    name: &str,
    attrs: Seq<(&str, &str)>,
    seq: nat,
    t_us: nat,
)
    requires
        !starts_with(name@, "event "@),
    ensures
        layer_event_line(name@, v.trace.id, Some(v.id), seq, t_us, attrs_text(attrs)) == event_line(
            v,
            name@,
            attrs,
            seq,
            t_us,
        ),
{
}

/// Once [`SpanLinesLayer::close_open`] has run, no span is open, so a close
/// arriving afterwards for any of them writes nothing a second time.
pub proof fn lemma_closed_once(l: LayerView, raw: u64)
    requires
        l.open.len() == 0,
    ensures
        first_index(l.open, raw) is None,
        spec_id_of(l.open, raw) is None,
{
}

} // verus!
