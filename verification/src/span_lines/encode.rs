//! Percent-encoding of everything that could be mistaken for record
//! structure, and the reading rule it makes exact.
//!
//! Everything is escaped unless it is known to be inert. A value can then
//! never contain whitespace, `=`, a control character or a non-ASCII byte,
//! which is what makes "split on whitespace, then on the first `=`, then
//! percent-decode" true as written rather than true most of the time.

use vstd::prelude::*;
use vstd::utf8::encode_utf8;

use crate::text::{is_hex_digit, push_char, string_with_capacity};

verus! {

/// Bytes written as themselves: ASCII letters and digits and `. _ - : / + @ ,`.
pub open spec fn is_inert(b: u8) -> bool {
    ||| 48 <= b <= 57
    ||| 65 <= b <= 90
    ||| 97 <= b <= 122
    ||| b == 46
    ||| b == 95
    ||| b == 45
    ||| b == 58
    ||| b == 47
    ||| b == 43
    ||| b == 64
    ||| b == 44
}

/// The uppercase hex digit for `n < 16`.
pub open spec fn upper_hex_char(n: nat) -> char {
    if n < 10 {
        ((n as u32) + 48) as char
    } else {
        ((n as u32) + 55) as char
    }
}

/// One byte as written into a record: itself if inert, else `%XX`.
pub open spec fn encode_byte(b: u8) -> Seq<char> {
    if is_inert(b) {
        seq![b as char]
    } else {
        seq!['%', upper_hex_char((b / 16) as nat), upper_hex_char((b % 16) as nat)]
    }
}

pub open spec fn encode_bytes(bs: Seq<u8>) -> Seq<char>
    decreases bs.len(),
{
    if bs.len() == 0 {
        Seq::<char>::empty()
    } else {
        encode_byte(bs[0]) + encode_bytes(bs.drop_first())
    }
}

/// The record form of the text `s`: its UTF-8 bytes, each encoded.
pub open spec fn encoded(s: Seq<char>) -> Seq<char> {
    encode_bytes(encode_utf8(s))
}

/// A character an encoded value can contain.
pub open spec fn is_record_char(c: char) -> bool {
    ||| '0' <= c <= '9'
    ||| 'A' <= c <= 'Z'
    ||| 'a' <= c <= 'z'
    ||| c == '.'
    ||| c == '_'
    ||| c == '-'
    ||| c == ':'
    ||| c == '/'
    ||| c == '+'
    ||| c == '@'
    ||| c == ','
    ||| c == '%'
}

pub open spec fn all_record_chars(s: Seq<char>) -> bool {
    forall|i: int| 0 <= i < s.len() ==> #[trigger] is_record_char(s[i])
}

/// The value of a hex digit of either case.
pub open spec fn hex_value(c: char) -> nat {
    if '0' <= c <= '9' {
        ((c as u32) - 48) as nat
    } else if 'A' <= c <= 'F' {
        ((c as u32) - 55) as nat
    } else {
        ((c as u32) - 87) as nat
    }
}

/// The reader the record format promises: `%` followed by two hex digits
/// is that byte, and every other character is itself.
pub open spec fn percent_decode(cs: Seq<char>) -> Seq<u8>
    decreases cs.len(),
{
    if cs.len() == 0 {
        Seq::<u8>::empty()
    } else if cs[0] == '%' && cs.len() >= 3 && is_hex_digit(cs[1]) && is_hex_digit(cs[2]) {
        seq![(hex_value(cs[1]) * 16 + hex_value(cs[2])) as u8] + percent_decode(
            cs.subrange(3, cs.len() as int),
        )
    } else {
        seq![cs[0] as u8] + percent_decode(cs.drop_first())
    }
}

pub proof fn lemma_encode_bytes_concat(a: Seq<u8>, b: Seq<u8>)
    ensures
        encode_bytes(a + b) == encode_bytes(a) + encode_bytes(b),
    decreases a.len(),
{
    if a.len() == 0 {
        assert(a + b =~= b);
    } else {
        lemma_encode_bytes_concat(a.drop_first(), b);
        assert((a + b).drop_first() =~= a.drop_first() + b);
        assert(encode_bytes(a + b) =~= encode_byte(a[0]) + (encode_bytes(a.drop_first())
            + encode_bytes(b)));
    }
}

proof fn lemma_encode_byte_chars(b: u8)
    ensures
        all_record_chars(encode_byte(b)),
        encode_byte(b).len() >= 1,
        is_inert(b) ==> encode_byte(b)[0] != '%' && (encode_byte(b)[0] as u8) == b,
        !is_inert(b) ==> encode_byte(b).len() == 3 && encode_byte(b)[0] == '%' && is_hex_digit(
            encode_byte(b)[1],
        ) && is_hex_digit(encode_byte(b)[2]) && hex_value(encode_byte(b)[1]) * 16 + hex_value(
            encode_byte(b)[2],
        ) == b,
{
    let hi = (b / 16) as nat;
    let lo = (b % 16) as nat;
    assert(hi < 16 && lo < 16);
    assert(upper_hex_char(hi) as u32 == if hi < 10 {
        hi + 48
    } else {
        hi + 55
    });
    assert(upper_hex_char(lo) as u32 == if lo < 10 {
        lo + 48
    } else {
        lo + 55
    });
    assert(hex_value(upper_hex_char(hi)) == hi);
    assert(hex_value(upper_hex_char(lo)) == lo);
    assert((b as char) as u32 == b as u32);
}

/// The encoding of any bytes is made of record characters only: no white
/// space, no `=`, no control character, nothing outside ASCII.
pub proof fn lemma_encoded_is_inert(bs: Seq<u8>)
    ensures
        all_record_chars(encode_bytes(bs)),
    decreases bs.len(),
{
    if bs.len() > 0 {
        lemma_encode_byte_chars(bs[0]);
        lemma_encoded_is_inert(bs.drop_first());
        let e = encode_byte(bs[0]);
        let r = encode_bytes(bs.drop_first());
        assert forall|i: int| 0 <= i < (e + r).len() implies #[trigger] is_record_char(
            (e + r)[i],
        ) by {
            if i < e.len() {
                assert(is_record_char(e[i]));
            } else {
                assert(is_record_char(r[i - e.len()]));
            }
        }
    }
}

/// Decoding an encoding gives back exactly the bytes that were encoded.
pub proof fn lemma_percent_round_trip(bs: Seq<u8>)
    ensures
        percent_decode(encode_bytes(bs)) == bs,
    decreases bs.len(),
{
    if bs.len() == 0 {
        assert(encode_bytes(bs) =~= Seq::<char>::empty());
    } else {
        let b = bs[0];
        let e = encode_byte(b);
        let r = encode_bytes(bs.drop_first());
        let cs = e + r;
        lemma_encode_byte_chars(b);
        lemma_percent_round_trip(bs.drop_first());
        if is_inert(b) {
            assert(cs[0] == e[0]);
            assert(cs.drop_first() =~= r);
            assert(percent_decode(cs) == seq![cs[0] as u8] + percent_decode(cs.drop_first()));
        } else {
            assert(cs[0] == '%' && cs[1] == e[1] && cs[2] == e[2]);
            assert(cs.subrange(3, cs.len() as int) =~= r);
        }
        assert(seq![b] + bs.drop_first() =~= bs);
    }
}

/// The uppercase hex digit for `n < 16`.
fn upper_hex(n: u8) -> (c: char)
    requires
        n < 16,
    ensures
        c == upper_hex_char(n as nat),
{
    if n < 10 {
        (n + 48) as char
    } else {
        (n + 55) as char
    }
}

/// The inert bytes, as in [`is_inert`].
fn inert(b: u8) -> (r: bool)
    ensures
        r == is_inert(b),
{
    (48 <= b && b <= 57) || (65 <= b && b <= 90) || (97 <= b && b <= 122) || b == 46 || b == 95
        || b == 45 || b == 58 || b == 47 || b == 43 || b == 64 || b == 44
}

/// Percent-encode anything that could be mistaken for record structure.
///
/// Quoting does not work here: a quoted value containing a space cannot
/// survive a whitespace split, and the halves parse back as two fields. So
/// every byte of the UTF-8 text is written as itself only when it is one
/// of the inert ASCII bytes, and as `%XX` (uppercase) otherwise, the escape
/// character `%` included.
pub fn encode(value: &str) -> (out: String)
    ensures
        out@ == encoded(value@),
{
    let bytes = value.as_bytes();
    let mut out = string_with_capacity(bytes.len());
    let mut i: usize = 0;
    while i < bytes.len()
        invariant
            i <= bytes@.len(),
            bytes@ == encode_utf8(value@),
            out@ == encode_bytes(bytes@.take(i as int)),
        decreases bytes@.len() - i,
    {
        let b = bytes[i];
        proof {
            lemma_encode_bytes_concat(bytes@.take(i as int), seq![b]);
            assert(bytes@.take(i + 1) =~= bytes@.take(i as int) + seq![b]);
            assert(encode_bytes(seq![b]) =~= encode_byte(b)) by {
                assert(seq![b].drop_first() =~= Seq::<u8>::empty());
                assert(encode_bytes(Seq::<u8>::empty()) =~= Seq::<char>::empty());
                assert(encode_bytes(seq![b]) == encode_byte(seq![b][0]) + encode_bytes(
                    seq![b].drop_first(),
                ));
            }
        }
        if inert(b) {
            push_char(&mut out, b as char);
        } else {
            push_char(&mut out, '%');
            push_char(&mut out, upper_hex(b / 16));
            push_char(&mut out, upper_hex(b % 16));
        }
        i = i + 1;
    }
    assert(bytes@.take(i as int) =~= bytes@);
    out
}

} // verus!
