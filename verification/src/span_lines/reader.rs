//! What a reader gets back from a record.
//!
//! The format promises one reading rule: split the line on white space,
//! each token on its first `=`, and percent-decode the value. This module
//! states that rule and proves what each record reads back as: exactly the
//! fields that were written, in order, whatever text the names and values
//! held.

use vstd::prelude::*;
use vstd::utf8::encode_utf8;

use crate::span_lines::encode::{
    encoded, is_record_char, lemma_encoded_is_inert, lemma_percent_round_trip, percent_decode,
};
use crate::span_lines::trace::{attr_text, attrs_text, event_line, parent_text, span_line, SpanView};
use crate::text::{
    all_lower_hex, decimal, digit_char, is_lower_hex_digit, is_white_space, lemma_split_on_concat,
    lemma_split_on_no_sep, split_on,
};

verus! {

/// A token's key, the text before its first `=`, and its value, the text
/// after it; no value if there is no `=`.
pub open spec fn split_field(tok: Seq<char>) -> (Seq<char>, Option<Seq<char>>)
    decreases tok.len(),
{
    if tok.len() == 0 {
        (Seq::<char>::empty(), None)
    } else if tok[0] == '=' {
        (Seq::<char>::empty(), Some(tok.drop_first()))
    } else {
        let rest = split_field(tok.drop_first());
        (seq![tok[0]] + rest.0, rest.1)
    }
}

/// One token read as a field: its key, and its value percent-decoded.
pub open spec fn read_token(tok: Seq<char>) -> (Seq<char>, Option<Seq<u8>>) {
    let f = split_field(tok);
    (
        f.0,
        match f.1 {
            Some(w) => Some(percent_decode(w)),
            None => None,
        },
    )
}

/// The reading rule: split the line at each space, each token at its first
/// `=`, and percent-decode the value.
pub open spec fn read_record(line: Seq<char>) -> Seq<(Seq<char>, Option<Seq<u8>>)> {
    split_on(line, ' ').map_values(|tok: Seq<char>| read_token(tok))
}

/// The bytes of ASCII text.
pub open spec fn ascii_bytes(s: Seq<char>) -> Seq<u8> {
    s.map_values(|c: char| c as u8)
}

/// Attributes, as `(key, value)` texts in the order they were set, as
/// written into a record.
pub open spec fn pairs_text(pairs: Seq<(Seq<char>, Seq<char>)>) -> Seq<char>
    decreases pairs.len(),
{
    if pairs.len() == 0 {
        Seq::<char>::empty()
    } else {
        pairs_text(pairs.drop_last()) + attr_text(pairs.last().0, pairs.last().1)
    }
}

/// What attributes read back as: each key as written (encoded), and each
/// value as the UTF-8 of the text that was set.
pub open spec fn attr_fields(pairs: Seq<(Seq<char>, Seq<char>)>) -> Seq<
    (Seq<char>, Option<Seq<u8>>),
> {
    pairs.map_values(|p: (Seq<char>, Seq<char>)| (encoded(p.0), Some(encode_utf8(p.1))))
}

/// The texts of an event's attributes.
pub open spec fn str_pairs(attrs: Seq<(&str, &str)>) -> Seq<(Seq<char>, Seq<char>)> {
    attrs.map_values(|p: (&str, &str)| (p.0@, p.1@))
}

/// The fields a span's record reads back as.
pub open spec fn span_fields(
    v: SpanView,
    seq: nat,
    dur_us: nat,
    pairs: Seq<(Seq<char>, Seq<char>)>,
) -> Seq<(Seq<char>, Option<Seq<u8>>)> {
    seq![
        ("span"@, Some(encode_utf8(v.name))),
        ("trace"@, Some(ascii_bytes(v.trace.id))),
        ("id"@, Some(ascii_bytes(v.id))),
        ("parent"@, Some(ascii_bytes(parent_text(v.parent)))),
        ("seq"@, Some(ascii_bytes(decimal(seq)))),
        ("t_us"@, Some(ascii_bytes(decimal(v.start_us)))),
        ("dur_us"@, Some(ascii_bytes(decimal(dur_us)))),
    ] + attr_fields(pairs)
}

/// The fields an event's record reads back as.
pub open spec fn event_fields(
    v: SpanView,
    name: Seq<char>,
    attrs: Seq<(&str, &str)>,
    seq: nat,
    t_us: nat,
) -> Seq<(Seq<char>, Option<Seq<u8>>)> {
    seq![
        ("event"@, Some(encode_utf8(name))),
        ("trace"@, Some(ascii_bytes(v.trace.id))),
        ("parent"@, Some(ascii_bytes(v.id))),
        ("seq"@, Some(ascii_bytes(decimal(seq)))),
        ("t_us"@, Some(ascii_bytes(decimal(t_us)))),
    ] + attr_fields(str_pairs(attrs))
}

/// A record holds no white space but the single spaces between its fields.
pub open spec fn spaces_only(line: Seq<char>) -> bool {
    forall|i: int| 0 <= i < line.len() && #[trigger] is_white_space(line[i]) ==> line[i] == ' '
}

spec fn no_space(s: Seq<char>) -> bool {
    forall|i: int| 0 <= i < s.len() ==> #[trigger] s[i] != ' '
}

spec fn no_eq(s: Seq<char>) -> bool {
    forall|i: int| 0 <= i < s.len() ==> #[trigger] s[i] != '='
}

spec fn no_percent(s: Seq<char>) -> bool {
    forall|i: int| 0 <= i < s.len() ==> #[trigger] s[i] != '%'
}

/// Characters a record is made of: record characters, `=` and the space.
spec fn plain(s: Seq<char>) -> bool {
    forall|i: int| 0 <= i < s.len() ==> (is_record_char(#[trigger] s[i]) || s[i] == '=' || s[i] == ' ')
}

/// `key=value`.
spec fn token(key: Seq<char>, value: Seq<char>) -> Seq<char> {
    key + seq!['='] + value
}

/// Tokens joined by single spaces.
spec fn spaced(toks: Seq<Seq<char>>) -> Seq<char>
    decreases toks.len(),
{
    if toks.len() == 0 {
        Seq::<char>::empty()
    } else if toks.len() == 1 {
        toks[0]
    } else {
        spaced(toks.drop_last()) + seq![' '] + toks.last()
    }
}

spec fn pair_token(p: (Seq<char>, Seq<char>)) -> Seq<char> {
    token(encoded(p.0), encoded(p.1))
}

spec fn pair_tokens(pairs: Seq<(Seq<char>, Seq<char>)>) -> Seq<Seq<char>> {
    pairs.map_values(|p: (Seq<char>, Seq<char>)| pair_token(p))
}

proof fn lemma_split_field(k: Seq<char>, w: Seq<char>)
    requires
        no_eq(k),
    ensures
        split_field(token(k, w)) == (k, Some(w)),
    decreases k.len(),
{
    let t = token(k, w);
    if k.len() == 0 {
        assert(t =~= seq!['='] + w);
        assert(t.drop_first() =~= w);
    } else {
        lemma_split_field(k.drop_first(), w);
        assert(t.drop_first() =~= token(k.drop_first(), w));
        assert(t[0] == k[0]);
        assert(seq![k[0]] + k.drop_first() =~= k);
    }
}

proof fn lemma_split_spaced(toks: Seq<Seq<char>>)
    requires
        toks.len() >= 1,
        forall|i: int| 0 <= i < toks.len() ==> no_space(#[trigger] toks[i]),
    ensures
        split_on(spaced(toks), ' ') == toks,
    decreases toks.len(),
{
    let last = toks.last();
    assert(no_space(last));
    assert(!last.contains(' '));
    lemma_split_on_no_sep(last, ' ');
    if toks.len() == 1 {
        assert(seq![toks[0]] =~= toks);
    } else {
        let init = toks.drop_last();
        assert forall|i: int| 0 <= i < init.len() implies no_space(#[trigger] init[i]) by {
            assert(init[i] == toks[i]);
        }
        lemma_split_spaced(init);
        lemma_split_on_concat(spaced(init), last, ' ');
        assert(init + seq![last] =~= toks);
    }
}

proof fn lemma_spaced_pairs(base: Seq<Seq<char>>, pairs: Seq<(Seq<char>, Seq<char>)>)
    requires
        base.len() >= 1,
    ensures
        spaced(base + pair_tokens(pairs)) == spaced(base) + pairs_text(pairs),
    decreases pairs.len(),
{
    if pairs.len() == 0 {
        assert(base + pair_tokens(pairs) =~= base);
        assert(spaced(base) + pairs_text(pairs) =~= spaced(base));
    } else {
        let init = pairs.drop_last();
        let last = pairs.last();
        lemma_spaced_pairs(base, init);
        let all = base + pair_tokens(pairs);
        assert(all.drop_last() =~= base + pair_tokens(init));
        assert(all.last() == pair_token(last));
        assert(spaced(all) == spaced(all.drop_last()) + seq![' '] + all.last());
        assert(spaced(all) =~= spaced(base) + pairs_text(pairs));
    }
}

proof fn lemma_decode_plain(cs: Seq<char>)
    requires
        no_percent(cs),
    ensures
        percent_decode(cs) == ascii_bytes(cs),
    decreases cs.len(),
{
    if cs.len() > 0 {
        assert(cs[0] != '%');
        assert(no_percent(cs.drop_first()));
        lemma_decode_plain(cs.drop_first());
        assert(percent_decode(cs) == seq![cs[0] as u8] + percent_decode(cs.drop_first()));
        assert(seq![cs[0] as u8] + ascii_bytes(cs.drop_first()) =~= ascii_bytes(cs));
    } else {
        assert(ascii_bytes(cs) =~= Seq::<u8>::empty());
    }
}

/// Encoded text holds record characters only.
proof fn lemma_encoded_plain(s: Seq<char>)
    ensures
        no_space(encoded(s)),
        no_eq(encoded(s)),
        plain(encoded(s)),
{
    lemma_encoded_is_inert(encode_utf8(s));
    let e = encoded(s);
    assert forall|i: int| 0 <= i < e.len() implies #[trigger] e[i] != ' ' && e[i] != '=' by {
        assert(is_record_char(e[i]));
    }
    assert forall|i: int| 0 <= i < e.len() implies is_record_char(#[trigger] e[i]) by {}
}

/// Lowercase hex ids hold record characters other than `%` only.
proof fn lemma_hex_plain(s: Seq<char>)
    requires
        all_lower_hex(s),
    ensures
        no_space(s),
        no_percent(s),
        plain(s),
{
    assert forall|i: int| 0 <= i < s.len() implies #[trigger] s[i] != ' ' && s[i] != '%'
        && is_record_char(s[i]) by {
        assert(is_lower_hex_digit(s[i]));
    }
}

/// Decimal numbers are digits only.
proof fn lemma_decimal_plain(n: nat)
    ensures
        no_space(decimal(n)),
        no_percent(decimal(n)),
        plain(decimal(n)),
        forall|i: int| 0 <= i < decimal(n).len() ==> '0' <= #[trigger] decimal(n)[i] <= '9',
    decreases n,
{
    if n < 10 {
        assert(digit_char(n) as u32 == n + 48);
    } else {
        lemma_decimal_plain(n / 10);
        let d = (n % 10) as nat;
        assert(digit_char(d) as u32 == d + 48);
        assert forall|i: int| 0 <= i < decimal(n).len() implies '0' <= #[trigger] decimal(n)[i]
            <= '9' by {
            if i < decimal(n / 10).len() {
                assert(decimal(n)[i] == decimal(n / 10)[i]);
            }
        }
    }
    let s = decimal(n);
    assert forall|i: int| 0 <= i < s.len() implies #[trigger] s[i] != ' ' && s[i] != '%'
        && is_record_char(s[i]) by {
        assert('0' <= s[i] <= '9');
    }
}

/// A `key=value` token with no space in it reads as `key` and the decoded
/// value, and is itself free of spaces.
proof fn lemma_token(key: Seq<char>, value: Seq<char>)
    requires
        no_eq(key),
        no_space(key),
        no_space(value),
        plain(key),
        plain(value),
    ensures
        no_space(token(key, value)),
        plain(token(key, value)),
        read_token(token(key, value)) == (key, Some(percent_decode(value))),
{
    lemma_split_field(key, value);
    let t = token(key, value);
    assert forall|i: int| 0 <= i < t.len() implies #[trigger] t[i] != ' ' && (is_record_char(t[i])
        || t[i] == '=' || t[i] == ' ') by {
        if i < key.len() {
            assert(t[i] == key[i]);
        } else if i > key.len() {
            assert(t[i] == value[i - key.len() - 1]);
        }
    }
}

proof fn lemma_pair_token(p: (Seq<char>, Seq<char>))
    ensures
        no_space(pair_token(p)),
        plain(pair_token(p)),
        read_token(pair_token(p)) == (encoded(p.0), Some(encode_utf8(p.1))),
{
    lemma_encoded_plain(p.0);
    lemma_encoded_plain(p.1);
    lemma_token(encoded(p.0), encoded(p.1));
    lemma_percent_round_trip(encode_utf8(p.1));
}

proof fn lemma_spaced_plain(toks: Seq<Seq<char>>)
    requires
        forall|i: int| 0 <= i < toks.len() ==> plain(#[trigger] toks[i]),
    ensures
        plain(spaced(toks)),
    decreases toks.len(),
{
    if toks.len() == 1 {
        assert(plain(toks[0]));
    } else if toks.len() > 1 {
        let init = toks.drop_last();
        assert forall|i: int| 0 <= i < init.len() implies plain(#[trigger] init[i]) by {
            assert(init[i] == toks[i]);
        }
        lemma_spaced_plain(init);
        let a = spaced(init);
        let l = toks.last();
        assert(plain(l));
        let s = spaced(toks);
        assert(s == a + seq![' '] + l);
        assert forall|i: int| 0 <= i < s.len() implies (is_record_char(#[trigger] s[i]) || s[i]
            == '=' || s[i] == ' ') by {
            if i < a.len() {
                assert(s[i] == a[i]);
            } else if i > a.len() {
                assert(s[i] == l[i - a.len() - 1]);
            }
        }
    }
}

proof fn lemma_plain_spaces_only(s: Seq<char>)
    requires
        plain(s),
    ensures
        spaces_only(s),
{
    assert forall|i: int| 0 <= i < s.len() && #[trigger] is_white_space(s[i]) implies s[i]
        == ' ' by {
        assert(is_record_char(s[i]) || s[i] == '=' || s[i] == ' ');
    }
}

/// A line of space-joined tokens followed by attributes reads back as the
/// tokens' fields followed by the attributes' fields.
proof fn lemma_read_line(base: Seq<Seq<char>>, pairs: Seq<(Seq<char>, Seq<char>)>)
    requires
        base.len() >= 1,
        forall|i: int| 0 <= i < base.len() ==> no_space(#[trigger] base[i]) && plain(base[i]),
    ensures
        read_record(spaced(base) + pairs_text(pairs)) == base.map_values(
            |t: Seq<char>| read_token(t),
        ) + attr_fields(pairs),
        spaces_only(spaced(base) + pairs_text(pairs)),
{
    lemma_spaced_pairs(base, pairs);
    let toks = base + pair_tokens(pairs);
    assert forall|i: int| 0 <= i < toks.len() implies no_space(#[trigger] toks[i]) && plain(
        toks[i],
    ) by {
        if i < base.len() {
            assert(toks[i] == base[i]);
        } else {
            assert(toks[i] == pair_token(pairs[i - base.len()]));
            lemma_pair_token(pairs[i - base.len()]);
        }
    }
    lemma_split_spaced(toks);
    lemma_spaced_plain(toks);
    lemma_plain_spaces_only(spaced(toks));
    let got = toks.map_values(|t: Seq<char>| read_token(t));
    let want = base.map_values(|t: Seq<char>| read_token(t)) + attr_fields(pairs);
    assert forall|i: int| 0 <= i < got.len() implies got[i] == want[i] by {
        if i >= base.len() {
            lemma_pair_token(pairs[i - base.len()]);
        }
    }
    assert(got =~= want);
}

/// The attributes of an event, written from its `(key, value)` pairs.
proof fn lemma_attrs_text(attrs: Seq<(&str, &str)>)
    ensures
        attrs_text(attrs) == pairs_text(str_pairs(attrs)),
    decreases attrs.len(),
{
    if attrs.len() > 0 {
        lemma_attrs_text(attrs.drop_last());
        assert(str_pairs(attrs).drop_last() =~= str_pairs(attrs.drop_last()));
    } else {
        assert(str_pairs(attrs) =~= Seq::<(Seq<char>, Seq<char>)>::empty());
    }
}

proof fn lemma_id_value(s: Seq<char>)
    requires
        all_lower_hex(s),
    ensures
        no_space(s),
        plain(s),
        percent_decode(s) == ascii_bytes(s),
{
    lemma_hex_plain(s);
    lemma_decode_plain(s);
}

proof fn lemma_decimal_value(n: nat)
    ensures
        no_space(decimal(n)),
        plain(decimal(n)),
        percent_decode(decimal(n)) == ascii_bytes(decimal(n)),
{
    lemma_decimal_plain(n);
    lemma_decode_plain(decimal(n));
}

proof fn lemma_encoded_value(s: Seq<char>)
    ensures
        no_space(encoded(s)),
        plain(encoded(s)),
        percent_decode(encoded(s)) == encode_utf8(s),
{
    lemma_encoded_plain(s);
    lemma_percent_round_trip(encode_utf8(s));
}

proof fn lemma_parent_value(p: Option<Seq<char>>)
    requires
        p matches Some(id) ==> all_lower_hex(id),
    ensures
        no_space(parent_text(p)),
        plain(parent_text(p)),
        percent_decode(parent_text(p)) == ascii_bytes(parent_text(p)),
{
    match p {
        Some(id) => lemma_id_value(id),
        None => {
            let s = parent_text(p);
            assert(s =~= seq!['-']);
            assert(no_percent(s));
            lemma_decode_plain(s);
        },
    }
}

proof fn lemma_key(k: Seq<char>)
    requires
        forall|i: int| 0 <= i < k.len() ==> 'a' <= #[trigger] k[i] <= 'z' || k[i] == '_',
    ensures
        no_eq(k),
        no_space(k),
        plain(k),
{
    assert forall|i: int| 0 <= i < k.len() implies #[trigger] k[i] != '=' && k[i] != ' '
        && is_record_char(k[i]) by {
        assert('a' <= k[i] <= 'z' || k[i] == '_');
    }
}

spec fn span_base(v: SpanView, seq: nat, dur_us: nat) -> Seq<Seq<char>> {
    seq![
        token("span"@, encoded(v.name)),
        token("trace"@, v.trace.id),
        token("id"@, v.id),
        token("parent"@, parent_text(v.parent)),
        token("seq"@, decimal(seq)),
        token("t_us"@, decimal(v.start_us)),
        token("dur_us"@, decimal(dur_us)),
    ]
}

spec fn event_base(v: SpanView, name: Seq<char>, seq: nat, t_us: nat) -> Seq<Seq<char>> {
    seq![
        token("event"@, encoded(name)),
        token("trace"@, v.trace.id),
        token("parent"@, v.id),
        token("seq"@, decimal(seq)),
        token("t_us"@, decimal(t_us)),
    ]
}

/// Appending ` key=` and a value extends the space-joined tokens by one.
proof fn lemma_step(toks: Seq<Seq<char>>, k: int, prefix: Seq<char>, lit: Seq<char>, key: Seq<char>, value: Seq<char>)
    requires
        1 <= k < toks.len(),
        prefix == spaced(toks.take(k)),
        lit == seq![' '] + key + seq!['='],
        toks[k] == token(key, value),
    ensures
        prefix + lit + value == spaced(toks.take(k + 1)),
{
    assert(toks.take(k + 1).drop_last() =~= toks.take(k));
    assert(toks.take(k + 1).last() == toks[k]);
    assert(prefix + lit + value =~= prefix + seq![' '] + token(key, value));
}

proof fn lemma_first(toks: Seq<Seq<char>>)
    requires
        toks.len() >= 1,
    ensures
        spaced(toks.take(1)) == toks[0],
{
    assert(toks.take(1).len() == 1);
}

proof fn lemma_span_line_spaced(v: SpanView, seq: nat, dur_us: nat)
    ensures
        span_line(v, seq, dur_us) == spaced(span_base(v, seq, dur_us)) + v.attrs,
{
    let b = span_base(v, seq, dur_us);
    let a1 = "span="@ + encoded(v.name);
    let a2 = a1 + " trace="@ + v.trace.id;
    let a3 = a2 + " id="@ + v.id;
    let a4 = a3 + " parent="@ + parent_text(v.parent);
    let a5 = a4 + " seq="@ + decimal(seq);
    let a6 = a5 + " t_us="@ + decimal(v.start_us);
    let a7 = a6 + " dur_us="@ + decimal(dur_us);
    assert(span_line(v, seq, dur_us) == a7 + v.attrs);
    assert("span="@ == "span"@ + seq!['=']) by {
        reveal_strlit("span=");
        reveal_strlit("span");
        assert("span="@ =~= "span"@ + seq!['=']);
    }
    lemma_first(b);
    assert(a1 == spaced(b.take(1)));
    assert(" trace="@ == seq![' '] + "trace"@ + seq!['=']) by {
        reveal_strlit(" trace=");
        reveal_strlit("trace");
        assert(" trace="@ =~= seq![' '] + "trace"@ + seq!['=']);
    }
    lemma_step(b, 1, a1, " trace="@, "trace"@, v.trace.id);
    assert(" id="@ == seq![' '] + "id"@ + seq!['=']) by {
        reveal_strlit(" id=");
        reveal_strlit("id");
        assert(" id="@ =~= seq![' '] + "id"@ + seq!['=']);
    }
    lemma_step(b, 2, a2, " id="@, "id"@, v.id);
    assert(" parent="@ == seq![' '] + "parent"@ + seq!['=']) by {
        reveal_strlit(" parent=");
        reveal_strlit("parent");
        assert(" parent="@ =~= seq![' '] + "parent"@ + seq!['=']);
    }
    lemma_step(b, 3, a3, " parent="@, "parent"@, parent_text(v.parent));
    assert(" seq="@ == seq![' '] + "seq"@ + seq!['=']) by {
        reveal_strlit(" seq=");
        reveal_strlit("seq");
        assert(" seq="@ =~= seq![' '] + "seq"@ + seq!['=']);
    }
    lemma_step(b, 4, a4, " seq="@, "seq"@, decimal(seq));
    assert(" t_us="@ == seq![' '] + "t_us"@ + seq!['=']) by {
        reveal_strlit(" t_us=");
        reveal_strlit("t_us");
        assert(" t_us="@ =~= seq![' '] + "t_us"@ + seq!['=']);
    }
    lemma_step(b, 5, a5, " t_us="@, "t_us"@, decimal(v.start_us));
    assert(" dur_us="@ == seq![' '] + "dur_us"@ + seq!['=']) by {
        reveal_strlit(" dur_us=");
        reveal_strlit("dur_us");
        assert(" dur_us="@ =~= seq![' '] + "dur_us"@ + seq!['=']);
    }
    lemma_step(b, 6, a6, " dur_us="@, "dur_us"@, decimal(dur_us));
    assert(b.take(7) =~= b);
}

proof fn lemma_event_line_spaced(v: SpanView, name: Seq<char>, attrs: Seq<(&str, &str)>, seq: nat, t_us: nat)
    ensures
        event_line(v, name, attrs, seq, t_us) == spaced(event_base(v, name, seq, t_us)) + attrs_text(attrs),
{
    let b = event_base(v, name, seq, t_us);
    let a1 = "event="@ + encoded(name);
    let a2 = a1 + " trace="@ + v.trace.id;
    let a3 = a2 + " parent="@ + v.id;
    let a4 = a3 + " seq="@ + decimal(seq);
    let a5 = a4 + " t_us="@ + decimal(t_us);
    assert(event_line(v, name, attrs, seq, t_us) == a5 + attrs_text(attrs));
    assert("event="@ == "event"@ + seq!['=']) by {
        reveal_strlit("event=");
        reveal_strlit("event");
        assert("event="@ =~= "event"@ + seq!['=']);
    }
    lemma_first(b);
    assert(a1 == spaced(b.take(1)));
    assert(" trace="@ == seq![' '] + "trace"@ + seq!['=']) by {
        reveal_strlit(" trace=");
        reveal_strlit("trace");
        assert(" trace="@ =~= seq![' '] + "trace"@ + seq!['=']);
    }
    lemma_step(b, 1, a1, " trace="@, "trace"@, v.trace.id);
    assert(" parent="@ == seq![' '] + "parent"@ + seq!['=']) by {
        reveal_strlit(" parent=");
        reveal_strlit("parent");
        assert(" parent="@ =~= seq![' '] + "parent"@ + seq!['=']);
    }
    lemma_step(b, 2, a2, " parent="@, "parent"@, v.id);
    assert(" seq="@ == seq![' '] + "seq"@ + seq!['=']) by {
        reveal_strlit(" seq=");
        reveal_strlit("seq");
        assert(" seq="@ =~= seq![' '] + "seq"@ + seq!['=']);
    }
    lemma_step(b, 3, a3, " seq="@, "seq"@, decimal(seq));
    assert(" t_us="@ == seq![' '] + "t_us"@ + seq!['=']) by {
        reveal_strlit(" t_us=");
        reveal_strlit("t_us");
        assert(" t_us="@ =~= seq![' '] + "t_us"@ + seq!['=']);
    }
    lemma_step(b, 4, a4, " t_us="@, "t_us"@, decimal(t_us));
    assert(b.take(5) =~= b);
}

/// The keys a record's fixed fields carry.
proof fn lemma_keys()
    ensures
        no_eq("span"@) && no_space("span"@) && plain("span"@),
        no_eq("event"@) && no_space("event"@) && plain("event"@),
        no_eq("trace"@) && no_space("trace"@) && plain("trace"@),
        no_eq("id"@) && no_space("id"@) && plain("id"@),
        no_eq("parent"@) && no_space("parent"@) && plain("parent"@),
        no_eq("seq"@) && no_space("seq"@) && plain("seq"@),
        no_eq("t_us"@) && no_space("t_us"@) && plain("t_us"@),
        no_eq("dur_us"@) && no_space("dur_us"@) && plain("dur_us"@),
{
    reveal_strlit("span");
    reveal_strlit("event");
    reveal_strlit("trace");
    reveal_strlit("id");
    reveal_strlit("parent");
    reveal_strlit("seq");
    reveal_strlit("t_us");
    reveal_strlit("dur_us");
    lemma_key("span"@);
    lemma_key("event"@);
    lemma_key("trace"@);
    lemma_key("id"@);
    lemma_key("parent"@);
    lemma_key("seq"@);
    lemma_key("t_us"@);
    lemma_key("dur_us"@);
}

proof fn lemma_span_base_fields(v: SpanView, seq: nat, dur_us: nat)
    requires
        v.wf(),
    ensures
        forall|i: int| 0 <= i < span_base(v, seq, dur_us).len() ==> no_space(
            #[trigger] span_base(v, seq, dur_us)[i],
        ) && plain(span_base(v, seq, dur_us)[i]),
        span_base(v, seq, dur_us).map_values(|t: Seq<char>| read_token(t)) == span_fields(
            v,
            seq,
            dur_us,
            Seq::empty(),
        ),
{
    lemma_keys();
    lemma_encoded_value(v.name);
    lemma_id_value(v.trace.id);
    lemma_id_value(v.id);
    lemma_parent_value(v.parent);
    lemma_decimal_value(seq);
    lemma_decimal_value(v.start_us);
    lemma_decimal_value(dur_us);
    lemma_token("span"@, encoded(v.name));
    lemma_token("trace"@, v.trace.id);
    lemma_token("id"@, v.id);
    lemma_token("parent"@, parent_text(v.parent));
    lemma_token("seq"@, decimal(seq));
    lemma_token("t_us"@, decimal(v.start_us));
    lemma_token("dur_us"@, decimal(dur_us));
    let b = span_base(v, seq, dur_us);
    assert(attr_fields(Seq::empty()) =~= Seq::<(Seq<char>, Option<Seq<u8>>)>::empty());
    assert(b.map_values(|t: Seq<char>| read_token(t)) =~= span_fields(v, seq, dur_us, Seq::empty()));
}

proof fn lemma_event_base_fields(v: SpanView, name: Seq<char>, seq: nat, t_us: nat)
    requires
        v.wf(),
    ensures
        forall|i: int| 0 <= i < event_base(v, name, seq, t_us).len() ==> no_space(
            #[trigger] event_base(v, name, seq, t_us)[i],
        ) && plain(event_base(v, name, seq, t_us)[i]),
        event_base(v, name, seq, t_us).map_values(|t: Seq<char>| read_token(t)) == event_fields(
            v,
            name,
            Seq::empty(),
            seq,
            t_us,
        ),
{
    lemma_keys();
    lemma_encoded_value(name);
    lemma_id_value(v.trace.id);
    lemma_id_value(v.id);
    lemma_decimal_value(seq);
    lemma_decimal_value(t_us);
    lemma_token("event"@, encoded(name));
    lemma_token("trace"@, v.trace.id);
    lemma_token("parent"@, v.id);
    lemma_token("seq"@, decimal(seq));
    lemma_token("t_us"@, decimal(t_us));
    let b = event_base(v, name, seq, t_us);
    assert(str_pairs(Seq::<(&str, &str)>::empty()) =~= Seq::<(Seq<char>, Seq<char>)>::empty());
    assert(attr_fields(Seq::empty()) =~= Seq::<(Seq<char>, Option<Seq<u8>>)>::empty());
    assert(b.map_values(|t: Seq<char>| read_token(t)) =~= event_fields(v, name, Seq::empty(), seq, t_us));
}

/// A span's record reads back as exactly its fields: `span`, `trace`,
/// `id`, `parent`, `seq`, `t_us` and `dur_us`, then each attribute in the
/// order it was set, its key as written and its value as the text that was
/// set, whatever that text holds. Spaces separate the fields and are the
/// only white space in the record.
pub proof fn lemma_span_record_reads_back(
    v: SpanView,
    seq: nat,
    dur_us: nat,
    pairs: Seq<(Seq<char>, Seq<char>)>,
)
    requires
        v.wf(),
        v.attrs == pairs_text(pairs),
    ensures
        read_record(span_line(v, seq, dur_us)) == span_fields(v, seq, dur_us, pairs),
        spaces_only(span_line(v, seq, dur_us)),
{
    let b = span_base(v, seq, dur_us);
    lemma_span_line_spaced(v, seq, dur_us);
    lemma_span_base_fields(v, seq, dur_us);
    lemma_read_line(b, pairs);
    assert(span_fields(v, seq, dur_us, pairs) =~= span_fields(v, seq, dur_us, Seq::empty())
        + attr_fields(pairs));
}

/// An event's record reads back as exactly its fields: `event`, `trace`,
/// `parent`, `seq` and `t_us`, then each attribute in order, its key as
/// written and its value as the text given. Spaces separate the fields and
/// are the only white space in the record.
pub proof fn lemma_event_record_reads_back(
    v: SpanView,
    name: Seq<char>,
    attrs: Seq<(&str, &str)>,
    seq: nat,
    t_us: nat,
)
    requires
        v.wf(),
    ensures
        read_record(event_line(v, name, attrs, seq, t_us)) == event_fields(v, name, attrs, seq, t_us),
        spaces_only(event_line(v, name, attrs, seq, t_us)),
{
    let b = event_base(v, name, seq, t_us);
    lemma_event_line_spaced(v, name, attrs, seq, t_us);
    lemma_attrs_text(attrs);
    lemma_event_base_fields(v, name, seq, t_us);
    lemma_read_line(b, str_pairs(attrs));
    assert(str_pairs(Seq::<(&str, &str)>::empty()) =~= Seq::<(Seq<char>, Seq<char>)>::empty());
    assert(event_fields(v, name, attrs, seq, t_us) =~= event_fields(v, name, Seq::empty(), seq, t_us)
        + attr_fields(str_pairs(attrs)));
}

} // verus!
