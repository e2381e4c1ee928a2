//! Traces, spans and the records they write.
//!
//! A [`Span`] here is the record-keeping half of a span: its identity,
//! attributes and gate, and the text of its record. What needs the
//! process (the clock, the shared sequence counter, the id source and the
//! sink) is supplied by the caller, so every record is a function of its
//! inputs.

use vstd::prelude::*;

use crate::span_lines::detail::Detail;
use crate::span_lines::encode::{encode, encoded};
use crate::span_lines::ids::{id_acc, id_from, lemma_id_shape, spec_id_from};
use crate::span_lines::unique::lemma_ids_do_not_repeat;
use crate::span_lines::traceparent::{
    is_flags, is_span_id, is_trace_id, lemma_traceparent_round_trip, parse_traceparent,
    spec_parse_traceparent, traceparent_text,
};
use crate::text::{
    all_hex, all_hex_chars, all_zero, all_zero_chars, decimal, lemma_lower_hex, lower, lowercase,
    push_char, push_decimal, push_str, trim, trimmed,
};

verus! {

/// The W3C `sampled` flag, used for traces this process starts.
pub const SAMPLED: &'static str = "01";

pub open spec fn opt_view(o: Option<String>) -> Option<Seq<char>> {
    match o {
        Some(s) => Some(s@),
        None => None,
    }
}

fn copy_opt(o: &Option<String>) -> (r: Option<String>)
    ensures
        opt_view(r) == opt_view(*o),
{
    match o {
        Some(s) => Some(s.clone()),
        None => None,
    }
}

/// What a [`Trace`] holds.
pub struct TraceView {
    pub id: Seq<char>,
    pub detail: Detail,
    pub inherited_parent: Option<Seq<char>>,
    pub flags: Seq<char>,
}

impl TraceView {
    /// The ids and flags are in the form records and headers use.
    pub open spec fn wf(self) -> bool {
        &&& is_trace_id(self.id)
        &&& is_flags(self.flags)
        &&& (self.inherited_parent matches Some(p) ==> is_span_id(p))
    }
}

/// A trace: an id shared by every span in one causal chain, and the detail
/// level those spans honour.
#[derive(Debug)]
pub struct Trace {
    id: String,
    detail: Detail,
    /// Span id inherited from a parent process, if any.
    inherited_parent: Option<String>,
    /// W3C trace flags, propagated verbatim to children. They are carried,
    /// not obeyed: whether this process records is governed by [`Detail`].
    flags: String,
}

impl View for Trace {
    type V = TraceView;

    closed spec fn view(&self) -> TraceView {
        TraceView {
            id: self.id@,
            detail: self.detail,
            inherited_parent: opt_view(self.inherited_parent),
            flags: self.flags@,
        }
    }
}

impl Trace {
    /// Its ids and flags are always in the form records and headers use.
    #[verifier::type_invariant]
    spec fn well_formed(self) -> bool {
        self@.wf()
    }
}

impl Clone for Trace {
    fn clone(&self) -> (t: Trace)
        ensures
            t@ == self@,
    {
        proof {
            use_type_invariant(self);
        }
        self.copy()
    }
}

/// A trace id [`Trace::adopt`] accepts, before lowercasing.
pub open spec fn is_adoptable_id(s: Seq<char>) -> bool {
    s.len() == 32 && all_hex(s) && !all_zero(s)
}

impl Trace {
    fn copy(&self) -> (t: Trace)
        ensures
            t@ == self@,
    {
        proof {
            use_type_invariant(self);
        }
        Trace {
            id: self.id.clone(),
            detail: self.detail,
            inherited_parent: copy_opt(&self.inherited_parent),
            flags: self.flags.clone(),
        }
    }

    /// Adopt a trace id this caller already carries, rather than minting
    /// one.
    ///
    /// `None` unless the id, with surrounding white space trimmed, is 32
    /// hex digits of either case and not all zero. The id is lowercased; the
    /// trace has no inherited parent and is flagged sampled.
    pub fn adopt(id: &str, detail: Detail) -> (r: Option<Trace>)
        ensures
            match r {
                Some(t) => {
                    &&& is_adoptable_id(trim(id@))
                    &&& t@ == TraceView {
                        id: lower(trim(id@)),
                        detail,
                        inherited_parent: None,
                        flags: SAMPLED@,
                    }
                },
                None => !is_adoptable_id(trim(id@)),
            },
            r matches Some(t) ==> t@.wf(),
    {
        let t = trimmed(id);
        if t.len() != 32 || !all_hex_chars(&t) || all_zero_chars(&t) {
            return None;
        }
        let mut flags = String::new();
        push_str(&mut flags, SAMPLED);
        proof {
            lemma_adopted_is_wf(id@, detail);
        }
        Some(Trace { id: lowercase(&t), detail, inherited_parent: None, flags })
    }

    /// The trace a process belongs to, given the values of `SPAN_LINES`
    /// and `TRACEPARENT` it was started with (if set), and the seed and
    /// counter to mint a new trace id from.
    ///
    /// The detail level is [`Detail::parse`]'s. A header
    /// [`parse_traceparent`] accepts is adopted: its trace id, its span as
    /// the inherited parent, and its flags verbatim. A malformed header is
    /// ignored rather than rejected, and the trace begins anew with a
    /// 16-byte id minted by [`id_from`], flagged sampled.
    pub fn from_env(span_lines: Option<&str>, traceparent: Option<&str>, seed: u64, counter: u64) -> (t:
        Trace)
        ensures
            t@.detail == Detail::spec_parse(
                match span_lines {
                    Some(v) => Some(v@),
                    None => None,
                },
            ),
            match traceparent {
                Some(v) => match spec_parse_traceparent(v@) {
                    Some((tr, sp, fl)) => t@.id == tr && t@.inherited_parent == Some(sp) && t@.flags
                        == fl,
                    None => t@.id == spec_id_from(seed, counter, 16) && t@.inherited_parent is None
                        && t@.flags == SAMPLED@,
                },
                None => t@.id == spec_id_from(seed, counter, 16) && t@.inherited_parent is None
                    && t@.flags == SAMPLED@,
            },
            t@.wf(),
    {
        proof {
            reveal_strlit("01");
        }
        let detail = Detail::parse(span_lines);
        if let Some(v) = traceparent {
            if let Some((trace, parent, flags)) = parse_traceparent(v) {
                proof {
                    lemma_parsed_is_wf(v@);
                }
                return Trace { id: trace, detail, inherited_parent: Some(parent), flags };
            }
        }
        let minted = id_from(seed, counter, 16);
        proof {
            lemma_id_shape(seed, counter, 16);
        }
        let mut flags = String::new();
        push_str(&mut flags, SAMPLED);
        assert(flags@ == seq!['0', '1']);
        assert(is_flags(flags@)) by {
            assert(crate::text::is_lower_hex_digit(flags@[0]));
            assert(crate::text::is_lower_hex_digit(flags@[1]));
        }
        Trace { id: minted, detail, inherited_parent: None, flags }
    }

    /// The trace id: 32 lowercase hex digits, not all zero.
    pub fn id(&self) -> (r: &str)
        ensures
            r@ == self@.id,
            is_trace_id(r@),
    {
        proof {
            use_type_invariant(self);
        }
        self.id.as_str()
    }

    pub fn detail(&self) -> (d: Detail)
        ensures
            d == self@.detail,
    {
        self.detail
    }

    /// Open a root span. Its parent is whatever a parent process handed us,
    /// or none. Its id is the 8-byte [`id_from`] of `seed` and `counter`,
    /// and `start_us` its start, in microseconds since the process's origin.
    pub fn span(&self, name: &'static str, seed: u64, counter: u64, start_us: u128) -> (s: Span)
        ensures
            s@ == (SpanView {
                trace: self@,
                name: name@,
                id: spec_id_from(seed, counter, 8),
                parent: self@.inherited_parent,
                start_us: start_us as nat,
                attrs: Seq::<char>::empty(),
                needs: Detail::Session,
                emitted: false,
            }),
            s@.wf(),
            s.minted() == (seed, counter),
    {
        proof {
            use_type_invariant(self);
            lemma_id_shape(seed, counter, 8);
        }
        let id = id_from(seed, counter, 8);
        Span {
            trace: self.copy(),
            name,
            id,
            parent: copy_opt(&self.inherited_parent),
            start_us,
            attrs: String::new(),
            needs: Detail::Session,
            emitted: false,
            minted: Ghost((seed, counter)),
        }
    }
}

/// Whatever [`parse_traceparent`] adopts is in the form records use.
pub proof fn lemma_parsed_is_wf(v: Seq<char>)
    ensures
        spec_parse_traceparent(v) matches Some((t, s, f)) ==> (TraceView {
            id: t,
            detail: Detail::Session,
            inherited_parent: Some(s),
            flags: f,
        }).wf(),
{
    let p = crate::text::split_on(trim(v), '-');
    if crate::span_lines::traceparent::traceparent_fields_ok(p) {
        lemma_lower_hex(p[1]);
        lemma_lower_hex(p[2]);
        lemma_lower_hex(p[3]);
    }
}

/// An adopted trace is well formed.
proof fn lemma_adopted_is_wf(id: Seq<char>, detail: Detail)
    requires
        is_adoptable_id(trim(id)),
    ensures
        (TraceView {
            id: lower(trim(id)),
            detail,
            inherited_parent: None,
            flags: SAMPLED@,
        }).wf(),
{
    reveal_strlit("01");
    lemma_lower_hex(trim(id));
    assert(crate::text::is_lower_hex_digit(SAMPLED@[0]));
    assert(crate::text::is_lower_hex_digit(SAMPLED@[1]));
}

/// Ids minted from `a` and from `b` (seed, counter) differ: the same seed
/// and distinct counters, outside the one pair of counters whose first
/// accumulators are `0` and `1`, which the all-zero guard makes meet.
pub open spec fn distinct_mint(a: (u64, u64), b: (u64, u64)) -> bool {
    &&& a.0 == b.0
    &&& a.1 != b.1
    &&& !(id_acc(a.0, a.1, 1) == 0 && id_acc(b.0, b.1, 1) == 1)
    &&& !(id_acc(a.0, a.1, 1) == 1 && id_acc(b.0, b.1, 1) == 0)
}

/// What a [`Span`] holds.
pub struct SpanView {
    pub trace: TraceView,
    pub name: Seq<char>,
    pub id: Seq<char>,
    pub parent: Option<Seq<char>>,
    /// Microseconds from the process's origin to the span's start.
    pub start_us: nat,
    /// The rendered attributes, each ` key=value`.
    pub attrs: Seq<char>,
    /// The detail level at which this span is worth emitting.
    pub needs: Detail,
    pub emitted: bool,
}

impl SpanView {
    /// The span's record is written (not silenced by the detail level).
    pub open spec fn enabled(self) -> bool {
        self.trace.detail.rank() >= self.needs.rank()
    }

    /// Ids in record form, and a level that is never `Off`.
    pub open spec fn wf(self) -> bool {
        &&& self.trace.wf()
        &&& is_span_id(self.id)
        &&& (self.parent matches Some(p) ==> is_span_id(p))
        &&& self.needs != Detail::Off
    }
}

/// ` key=value`, both encoded.
pub open spec fn attr_text(key: Seq<char>, value: Seq<char>) -> Seq<char> {
    seq![' '] + encoded(key) + seq!['='] + encoded(value)
}

/// The attributes of an event, in order.
pub open spec fn attrs_text(attrs: Seq<(&str, &str)>) -> Seq<char>
    decreases attrs.len(),
{
    if attrs.len() == 0 {
        Seq::<char>::empty()
    } else {
        attrs_text(attrs.drop_last()) + attr_text(attrs.last().0@, attrs.last().1@)
    }
}

pub open spec fn parent_text(p: Option<Seq<char>>) -> Seq<char> {
    match p {
        Some(id) => id,
        None => seq!['-'],
    }
}

/// The record a span writes when it ends.
pub open spec fn span_line(v: SpanView, seq: nat, dur_us: nat) -> Seq<char> {
    "span="@ + encoded(v.name) + " trace="@ + v.trace.id + " id="@ + v.id + " parent="@
        + parent_text(v.parent) + " seq="@ + decimal(seq) + " t_us="@ + decimal(v.start_us)
        + " dur_us="@ + decimal(dur_us) + v.attrs
}

/// The record of an event inside a span.
pub open spec fn event_line(
    v: SpanView,
    name: Seq<char>,
    attrs: Seq<(&str, &str)>,
    seq: nat,
    t_us: nat,
) -> Seq<char> {
    "event="@ + encoded(name) + " trace="@ + v.trace.id + " parent="@ + v.id + " seq="@ + decimal(
        seq,
    ) + " t_us="@ + decimal(t_us) + attrs_text(attrs)
}

/// An open span: its identity, attributes and gate, and whether its record
/// has been written.
pub struct Span {
    trace: Trace,
    name: &'static str,
    id: String,
    parent: Option<String>,
    start_us: u128,
    attrs: String,
    needs: Detail,
    emitted: bool,
    /// The seed and counter its id was minted from.
    minted: Ghost<(u64, u64)>,
}

impl View for Span {
    type V = SpanView;

    closed spec fn view(&self) -> SpanView {
        SpanView {
            trace: self.trace@,
            name: self.name@,
            id: self.id@,
            parent: opt_view(self.parent),
            start_us: self.start_us as nat,
            attrs: self.attrs@,
            needs: self.needs,
            emitted: self.emitted,
        }
    }
}

/// What a span's outcome field should say given how it is ending: a span
/// dropped during unwinding says `panic`.
pub fn drop_status(panicking: bool) -> (r: Option<&'static str>)
    ensures
        match r {
            Some(s) => panicking && s@ == "panic"@,
            None => !panicking,
        },
{
    if panicking {
        Some("panic")
    } else {
        None
    }
}

impl Span {
    /// Its ids and flags are always in the form records and headers use.
    #[verifier::type_invariant]
    spec fn well_formed(self) -> bool {
        &&& self@.wf()
        &&& self.id@ == spec_id_from(self.minted@.0, self.minted@.1, 8)
    }

    /// The seed and counter its id was minted from: its id is their 8-byte
    /// [`id_from`].
    pub closed spec fn minted(self) -> (u64, u64) {
        self.minted@
    }

    /// A child span of this one, in the same trace.
    ///
    /// Emitted at `Detail::Session`, or at whatever its parent requires if
    /// that is louder. A child cannot be chattier than its parent: a
    /// session-level child of a silent frame span would name a parent that
    /// appears nowhere in the journal.
    pub fn child(&self, name: &'static str, seed: u64, counter: u64, start_us: u128) -> (c: Span)
        ensures
            c@ == (SpanView {
                trace: self@.trace,
                name: name@,
                id: spec_id_from(seed, counter, 8),
                parent: Some(self@.id),
                start_us: start_us as nat,
                attrs: Seq::<char>::empty(),
                needs: if self@.needs.rank() >= Detail::Session.rank() {
                    self@.needs
                } else {
                    Detail::Session
                },
                emitted: false,
            }),
            c@.enabled() ==> self@.enabled(),
            c@.wf(),
            c.minted() == (seed, counter),
            distinct_mint(self.minted(), (seed, counter)) ==> c@.id != self@.id,
    {
        proof {
            use_type_invariant(self);
            lemma_id_shape(seed, counter, 8);
            if distinct_mint(self.minted(), (seed, counter)) {
                lemma_ids_do_not_repeat(seed, self.minted().1, counter, 8);
            }
        }
        let id = id_from(seed, counter, 8);
        Span {
            trace: self.trace.copy(),
            name,
            id,
            parent: Some(self.id.clone()),
            start_us,
            attrs: String::new(),
            needs: self.needs.louder(Detail::Session),
            emitted: false,
            minted: Ghost((seed, counter)),
        }
    }

    /// A child span emitted only at `Detail::Frames`: per-wake and
    /// per-frame work, which is worth records while diagnosing and silence
    /// the rest of the time.
    pub fn frame_child(&self, name: &'static str, seed: u64, counter: u64, start_us: u128) -> (c:
        Span)
        ensures
            c@ == (SpanView {
                trace: self@.trace,
                name: name@,
                id: spec_id_from(seed, counter, 8),
                parent: Some(self@.id),
                start_us: start_us as nat,
                attrs: Seq::<char>::empty(),
                needs: Detail::Frames,
                emitted: false,
            }),
            c@.enabled() ==> self@.enabled() || self@.needs.rank() > Detail::Frames.rank(),
            c@.enabled() <==> self@.trace.detail == Detail::Frames,
            c@.wf(),
            c.minted() == (seed, counter),
            distinct_mint(self.minted(), (seed, counter)) ==> c@.id != self@.id,
    {
        proof {
            use_type_invariant(self);
            lemma_id_shape(seed, counter, 8);
            if distinct_mint(self.minted(), (seed, counter)) {
                lemma_ids_do_not_repeat(seed, self.minted().1, counter, 8);
            }
        }
        let id = id_from(seed, counter, 8);
        Span {
            trace: self.trace.copy(),
            name,
            id,
            parent: Some(self.id.clone()),
            start_us,
            attrs: String::new(),
            needs: Detail::Frames,
            emitted: false,
            minted: Ghost((seed, counter)),
        }
    }

    fn push_attr(&mut self, key: &str, value: &str)
        ensures
            final(self)@ == (SpanView { attrs: old(self)@.attrs + attr_text(key@, value@), ..old(self)@ }),
    {
        proof {
            use_type_invariant(&*self);
        }
        let k = encode(key);
        let v = encode(value);
        let mut attrs = String::new();
        std::mem::swap(&mut attrs, &mut self.attrs);
        push_char(&mut attrs, ' ');
        push_str(&mut attrs, k.as_str());
        push_char(&mut attrs, '=');
        push_str(&mut attrs, v.as_str());
        self.attrs = attrs;
        assert(self.attrs@ =~= old(self)@.attrs + attr_text(key@, value@));
    }

    /// Attach an attribute, written as ` key=value` with both encoded.
    ///
    /// The key is `&'static str` on purpose: attacker-influenced text
    /// belongs in the value. The key is encoded too, so a careless literal
    /// cannot add or drop a field either.
    pub fn attr(self, key: &'static str, value: &str) -> (s: Span)
        ensures
            s@ == (SpanView { attrs: self@.attrs + attr_text(key@, value@), ..self@ }),
    {
        let mut s = self;
        s.push_attr(key, value);
        s
    }

    /// As [`Span::attr`], for a span already bound to a variable.
    pub fn set(&mut self, key: &'static str, value: &str)
        ensures
            final(self)@ == (SpanView { attrs: old(self)@.attrs + attr_text(key@, value@), ..old(self)@ }),
    {
        self.push_attr(key, value);
    }

    /// The record of something instantaneous inside this span, taking
    /// sequence number `seq` at `t_us`, or `None` if the detail level
    /// silences it.
    pub fn event(&self, name: &'static str, attrs: &[(&'static str, &str)], seq: u64, t_us: u128) -> (r:
        Option<String>)
        ensures
            match r {
                Some(line) => self@.enabled() && line@ == event_line(
                    self@,
                    name@,
                    attrs@,
                    seq as nat,
                    t_us as nat,
                ),
                None => !self@.enabled(),
            },
    {
        if !self.enabled() {
            return None;
        }
        let mut line = String::new();
        push_str(&mut line, "event=");
        let n = encode(name);
        push_str(&mut line, n.as_str());
        push_str(&mut line, " trace=");
        push_str(&mut line, self.trace.id.as_str());
        push_str(&mut line, " parent=");
        push_str(&mut line, self.id.as_str());
        push_str(&mut line, " seq=");
        push_decimal(&mut line, seq as u128);
        push_str(&mut line, " t_us=");
        push_decimal(&mut line, t_us);
        let ghost head = line@;
        let mut i: usize = 0;
        while i < attrs.len()
            invariant
                i <= attrs@.len(),
                line@ == head + attrs_text(attrs@.take(i as int)),
            decreases attrs@.len() - i,
        {
            let (k, v) = attrs[i];
            let ek = encode(k);
            let ev = encode(v);
            push_char(&mut line, ' ');
            push_str(&mut line, ek.as_str());
            push_char(&mut line, '=');
            push_str(&mut line, ev.as_str());
            i = i + 1;
            assert(attrs@.take(i as int).drop_last() =~= attrs@.take(i - 1));
            assert(line@ =~= head + attrs_text(attrs@.take(i as int)));
        }
        assert(attrs@.take(i as int) =~= attrs@);
        Some(line)
    }

    /// The record this span writes, taking sequence number `seq` and
    /// lasting `dur_us` microseconds, or `None` if the detail level
    /// silences it.
    pub fn render_span(&self, seq: u64, dur_us: u128) -> (r: Option<String>)
        ensures
            match r {
                Some(line) => self@.enabled() && line@ == span_line(self@, seq as nat, dur_us as nat),
                None => !self@.enabled(),
            },
    {
        if !self.enabled() {
            return None;
        }
        let mut line = String::new();
        push_str(&mut line, "span=");
        let n = encode(self.name);
        push_str(&mut line, n.as_str());
        push_str(&mut line, " trace=");
        push_str(&mut line, self.trace.id.as_str());
        push_str(&mut line, " id=");
        push_str(&mut line, self.id.as_str());
        push_str(&mut line, " parent=");
        match &self.parent {
            Some(p) => push_str(&mut line, p.as_str()),
            None => push_char(&mut line, '-'),
        }
        push_str(&mut line, " seq=");
        push_decimal(&mut line, seq as u128);
        push_str(&mut line, " t_us=");
        push_decimal(&mut line, self.start_us);
        push_str(&mut line, " dur_us=");
        push_decimal(&mut line, dur_us);
        push_str(&mut line, self.attrs.as_str());
        Some(line)
    }

    /// The record written before the span was ended, once.
    ///
    /// The first call marks the span ended, appends ` status=<status>` if a
    /// status is given, and returns the record ([`Span::render_span`]) if
    /// the detail level lets it through; every later call returns `None`
    /// and changes nothing, so a span is written at most once however it
    /// ends.
    pub fn finish(&mut self, status: Option<&'static str>, seq: u64, dur_us: u128) -> (r: Option<String>)
        ensures
            old(self)@.emitted ==> r is None && final(self)@ == old(self)@,
            !old(self)@.emitted ==> {
                let attrs = match status {
                    Some(st) => old(self)@.attrs + attr_text("status"@, st@),
                    None => old(self)@.attrs,
                };
                let after = SpanView { attrs, emitted: true, ..old(self)@ };
                &&& final(self)@ == after
                &&& match r {
                    Some(line) => after.enabled() && line@ == span_line(after, seq as nat, dur_us as nat),
                    None => !after.enabled(),
                }
            },
    {
        proof {
            use_type_invariant(&*self);
        }
        if self.emitted {
            return None;
        }
        self.emitted = true;
        if let Some(st) = status {
            self.push_attr("status", st);
        }
        self.render_span(seq, dur_us)
    }

    /// The span would write a record when next ended: not yet ended, and
    /// not silenced by the detail level.
    pub fn will_emit(&self) -> (b: bool)
        ensures
            b == (!self@.emitted && self@.enabled()),
    {
        !self.emitted && self.enabled()
    }

    /// The detail level lets this span's records through.
    pub fn enabled(&self) -> (b: bool)
        ensures
            b == self@.enabled(),
    {
        self.trace.detail.at_least(self.needs)
    }

    /// The W3C header to hand to a child process, so its spans join this
    /// trace: `00-<trace id>-<span id>-<flags>`.
    pub fn traceparent(&self) -> (h: String)
        ensures
            h@ == traceparent_text(self@.trace.id, self@.id, self@.trace.flags),
            spec_parse_traceparent(h@) == Some((self@.trace.id, self@.id, self@.trace.flags)),
    {
        proof {
            use_type_invariant(self);
            lemma_span_traceparent_round_trip(self@);
        }
        let mut h = String::new();
        push_char(&mut h, '0');
        push_char(&mut h, '0');
        push_char(&mut h, '-');
        push_str(&mut h, self.trace.id.as_str());
        push_char(&mut h, '-');
        push_str(&mut h, self.id.as_str());
        push_char(&mut h, '-');
        push_str(&mut h, self.trace.flags.as_str());
        assert(h@ =~= traceparent_text(self@.trace.id, self@.id, self@.trace.flags));
        h
    }

    pub fn id(&self) -> (r: &str)
        ensures
            r@ == self@.id,
    {
        self.id.as_str()
    }

    pub fn trace(&self) -> (t: &Trace)
        ensures
            t@ == self@.trace,
    {
        &self.trace
    }
}

/// The header a well-formed span hands to a child parses back to its trace
/// id, its own id and its trace's flags.
pub proof fn lemma_span_traceparent_round_trip(s: SpanView)
    requires
        s.wf(),
    ensures
        spec_parse_traceparent(traceparent_text(s.trace.id, s.id, s.trace.flags)) == Some(
            (s.trace.id, s.id, s.trace.flags),
        ),
{
    lemma_traceparent_round_trip(s.trace.id, s.id, s.trace.flags);
}

/// Ids this crate mints are ids its own parser accepts: a trace id of 16
/// bytes and a span id of 8, whatever their seeds and counters, make a
/// header that parses back to exactly them.
pub proof fn lemma_minted_ids_parse(seed: u64, trace_counter: u64, span_counter: u64)
    ensures
        is_trace_id(spec_id_from(seed, trace_counter, 16)),
        is_span_id(spec_id_from(seed, span_counter, 8)),
        spec_parse_traceparent(
            traceparent_text(
                spec_id_from(seed, trace_counter, 16),
                spec_id_from(seed, span_counter, 8),
                SAMPLED@,
            ),
        ) == Some(
            (spec_id_from(seed, trace_counter, 16), spec_id_from(seed, span_counter, 8), SAMPLED@),
        ),
{
    reveal_strlit("01");
    lemma_id_shape(seed, trace_counter, 16);
    lemma_id_shape(seed, span_counter, 8);
    assert(crate::text::is_lower_hex_digit(SAMPLED@[0]));
    assert(crate::text::is_lower_hex_digit(SAMPLED@[1]));
    lemma_traceparent_round_trip(
        spec_id_from(seed, trace_counter, 16),
        spec_id_from(seed, span_counter, 8),
        SAMPLED@,
    );
}

/// No record names a parent that was never printed: a child (of either
/// kind) is written only if its parent is, unless the child is a frame span
/// under a frames-level trace, in which case its parent, whose level is at
/// most `Frames`, is written too.
pub proof fn lemma_child_gated_by_parent(parent: SpanView, child: SpanView)
    requires
        parent.wf(),
        child.trace == parent.trace,
        child.parent == Some(parent.id),
        child.needs.rank() >= parent.needs.rank(),
    ensures
        child.enabled() ==> parent.enabled(),
{
}

/// `off` silences every record of a well-formed span.
pub proof fn lemma_off_is_silent(s: SpanView)
    requires
        s.wf(),
        s.trace.detail == Detail::Off,
    ensures
        !s.enabled(),
{
}

} // verus!
