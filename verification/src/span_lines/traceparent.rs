//! W3C `traceparent` parsing.

use vstd::prelude::*;

use crate::text::{
    all_hex, all_hex_chars, all_lower_hex, all_zero, all_zero_chars, ascii_lower, is_hex_digit,
    is_lower_hex_digit, is_white_space, lemma_ascii_lower_char, lemma_lower_hex, lemma_lower_twice,
    lemma_split_on_concat, lemma_split_on_lower, lemma_split_on_no_sep, lemma_trim_fixed,
    lemma_trim_lower, lower, lowercase, split, split_on, trim, trimmed,
};

verus! {

pub open spec fn is_f(c: char) -> bool {
    c == 'f' || c == 'F'
}

/// The `-`-separated fields of a header form a `traceparent` this crate
/// adopts.
pub open spec fn traceparent_fields_ok(p: Seq<Seq<char>>) -> bool {
    &&& p.len() >= 4
    &&& p[0].len() == 2
    &&& p[1].len() == 32
    &&& p[2].len() == 16
    &&& p[3].len() == 2
    &&& all_hex(p[0])
    &&& all_hex(p[1])
    &&& all_hex(p[2])
    &&& all_hex(p[3])
    // version ff is reserved as invalid
    &&& !(is_f(p[0][0]) && is_f(p[0][1]))
    // version 00 is exactly four fields
    &&& !(p[0][0] == '0' && p[0][1] == '0' && p.len() > 4)
    // an all-zero id is "no parent", not a parent named zero
    &&& !all_zero(p[1])
    &&& !all_zero(p[2])
}

/// `(trace id, parent span id, flags)`, lowercased, when `v` is a header
/// this crate adopts.
pub open spec fn spec_parse_traceparent(v: Seq<char>) -> Option<(Seq<char>, Seq<char>, Seq<char>)> {
    let p = split_on(trim(v), '-');
    if traceparent_fields_ok(p) {
        Some((lower(p[1]), lower(p[2]), lower(p[3])))
    } else {
        None
    }
}

/// A trace id as written into records: 32 lowercase hex digits, not all zero.
pub open spec fn is_trace_id(s: Seq<char>) -> bool {
    s.len() == 32 && all_lower_hex(s) && !all_zero(s)
}

/// A span id as written into records: 16 lowercase hex digits, not all zero.
pub open spec fn is_span_id(s: Seq<char>) -> bool {
    s.len() == 16 && all_lower_hex(s) && !all_zero(s)
}

/// Trace flags as propagated: two lowercase hex digits.
pub open spec fn is_flags(s: Seq<char>) -> bool {
    s.len() == 2 && all_lower_hex(s)
}

/// The header [`Span::traceparent`](super::trace::Span::traceparent) writes.
pub open spec fn traceparent_text(trace: Seq<char>, span: Seq<char>, flags: Seq<char>) -> Seq<char> {
    seq!['0', '0'] + seq!['-'] + trace + seq!['-'] + span + seq!['-'] + flags
}

proof fn lemma_lower_hex_not_sep(s: Seq<char>)
    requires
        all_lower_hex(s),
    ensures
        !s.contains('-'),
        all_hex(s),
{
    if s.contains('-') {
        let k = choose|k: int| 0 <= k < s.len() && s[k] == '-';
        assert(is_lower_hex_digit(s[k]));
    }
    assert forall|i: int| 0 <= i < s.len() implies #[trigger] is_hex_digit(s[i]) by {
        assert(is_lower_hex_digit(s[i]));
    }
}

/// A header written from well-formed ids parses back to exactly those ids
/// and flags.
pub proof fn lemma_traceparent_round_trip(trace: Seq<char>, span: Seq<char>, flags: Seq<char>)
    requires
        is_trace_id(trace),
        is_span_id(span),
        is_flags(flags),
    ensures
        spec_parse_traceparent(traceparent_text(trace, span, flags)) == Some((trace, span, flags)),
{
    let v = traceparent_text(trace, span, flags);
    let ver = seq!['0', '0'];
    assert(is_lower_hex_digit(flags[1]));
    assert(v[0] == '0');
    assert(v[v.len() - 1] == flags[1]);
    assert(!is_white_space(flags[1]));
    lemma_trim_fixed(v);
    lemma_lower_hex_not_sep(trace);
    lemma_lower_hex_not_sep(span);
    lemma_lower_hex_not_sep(flags);
    lemma_split_on_no_sep(ver, '-');
    lemma_split_on_no_sep(trace, '-');
    lemma_split_on_no_sep(span, '-');
    lemma_split_on_no_sep(flags, '-');
    let a = ver + seq!['-'] + trace;
    let b = a + seq!['-'] + span;
    lemma_split_on_concat(ver, trace, '-');
    lemma_split_on_concat(a, span, '-');
    lemma_split_on_concat(b, flags, '-');
    assert(v =~= b + seq!['-'] + flags);
    let p = split_on(v, '-');
    assert(p =~= seq![ver, trace, span, flags]);
    lemma_lower_hex(trace);
    lemma_lower_hex(span);
    lemma_lower_hex(flags);
    assert(all_hex(ver)) by {
        assert(is_hex_digit(ver[0]) && is_hex_digit(ver[1]));
    }
    assert(traceparent_fields_ok(p));
}

proof fn lemma_fields_ok_lower(p: Seq<Seq<char>>)
    ensures
        traceparent_fields_ok(p.map_values(|q: Seq<char>| lower(q))) == traceparent_fields_ok(p),
{
    let lp = p.map_values(|q: Seq<char>| lower(q));
    if p.len() >= 4 {
        assert(lp[0] == lower(p[0]));
        assert(lp[1] == lower(p[1]));
        assert(lp[2] == lower(p[2]));
        assert(lp[3] == lower(p[3]));
        lemma_lower_hex(p[0]);
        lemma_lower_hex(p[1]);
        lemma_lower_hex(p[2]);
        lemma_lower_hex(p[3]);
        if p[0].len() == 2 {
            lemma_ascii_lower_char(p[0][0]);
            lemma_ascii_lower_char(p[0][1]);
            assert(lp[0][0] == ascii_lower(p[0][0]));
            assert(lp[0][1] == ascii_lower(p[0][1]));
        }
    }
}

/// Parsing ignores the case of the header: a header and its lowercased
/// form are adopted or refused together, and give the same ids and flags.
pub proof fn lemma_parse_ignores_case(v: Seq<char>)
    ensures
        spec_parse_traceparent(lower(v)) == spec_parse_traceparent(v),
{
    let p = split_on(trim(v), '-');
    lemma_trim_lower(v);
    lemma_split_on_lower(trim(v));
    let lp = p.map_values(|q: Seq<char>| lower(q));
    assert(split_on(trim(lower(v)), '-') == lp);
    lemma_fields_ok_lower(p);
    if traceparent_fields_ok(p) {
        assert(lp[1] == lower(p[1]));
        assert(lp[2] == lower(p[2]));
        assert(lp[3] == lower(p[3]));
        lemma_lower_twice(p[1]);
        lemma_lower_twice(p[2]);
        lemma_lower_twice(p[3]);
    }
}

/// A header written in any mix of cases is adopted with the lowercase ids
/// and flags it spells.
pub proof fn lemma_traceparent_any_case(
    v: Seq<char>,
    trace: Seq<char>,
    span: Seq<char>,
    flags: Seq<char>,
)
    requires
        is_trace_id(trace),
        is_span_id(span),
        is_flags(flags),
        lower(v) == traceparent_text(trace, span, flags),
    ensures
        spec_parse_traceparent(v) == Some((trace, span, flags)),
{
    lemma_parse_ignores_case(v);
    lemma_traceparent_round_trip(trace, span, flags);
}

/// Parse a W3C `traceparent`, returning `(trace id, parent span id, flags)`.
///
/// Uppercase hex is accepted and lowercased, and surrounding whitespace is
/// trimmed. Refused: fewer than four `-`-separated fields, a field of the
/// wrong width (2, 32, 16 and 2 hex digits), version `ff` in either case,
/// version `00` with trailing fields (later versions may append, and those
/// are still accepted), and an all-zero trace or parent id.
pub fn parse_traceparent(value: &str) -> (r: Option<(String, String, String)>)
    ensures
        match r {
            Some((t, s, f)) => spec_parse_traceparent(value@) == Some((t@, s@, f@)),
            None => spec_parse_traceparent(value@) is None,
        },
{
    let t = trimmed(value);
    let parts = split(&t, '-');
    if parts.len() < 4 {
        return None;
    }
    let version = &parts[0];
    let trace = &parts[1];
    let span = &parts[2];
    let flags = &parts[3];
    if version.len() != 2 || trace.len() != 32 || span.len() != 16 || flags.len() != 2 {
        return None;
    }
    if !all_hex_chars(version) || !all_hex_chars(trace) || !all_hex_chars(span) || !all_hex_chars(
        flags,
    ) {
        return None;
    }
    if (version[0] == 'f' || version[0] == 'F') && (version[1] == 'f' || version[1] == 'F') {
        return None;
    }
    if version[0] == '0' && version[1] == '0' && parts.len() > 4 {
        return None;
    }
    if all_zero_chars(trace) || all_zero_chars(span) {
        return None;
    }
    Some((lowercase(trace), lowercase(span), lowercase(flags)))
}

} // verus!
