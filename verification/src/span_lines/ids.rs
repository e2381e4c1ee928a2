//! Trace and span ids: lowercase hex of a fixed width, never all zero.
//!
//! Pure, so the properties can be stated for every seed and counter
//! rather than for whatever the machine happened to produce. All-zero
//! matters because W3C reads an all-zero id as "no parent".

use vstd::prelude::*;

use crate::text::{all_lower_hex, all_zero, all_zero_chars, chars_of, is_lower_hex_digit, push_char};

verus! {

/// One SplitMix64 step.
pub open spec fn spec_splitmix(x: u64) -> u64 {
    let x1 = x.wrapping_add(0x9e37_79b9_7f4a_7c15);
    let z1 = (x1 ^ (x1 >> 30)).wrapping_mul(0xbf58_476d_1ce4_e5b9);
    let z2 = (z1 ^ (z1 >> 27)).wrapping_mul(0x94d0_49bb_1331_11eb);
    z2 ^ (z2 >> 31)
}

/// SplitMix64. A counter alone would make ids sequential and visibly
/// correlated; this scatters them for the cost of a few instructions.
pub fn splitmix(x: u64) -> (r: u64)
    ensures
        r == spec_splitmix(x),
{
    let x1 = x.wrapping_add(0x9e37_79b9_7f4a_7c15);
    let z1 = (x1 ^ (x1 >> 30)).wrapping_mul(0xbf58_476d_1ce4_e5b9);
    let z2 = (z1 ^ (z1 >> 27)).wrapping_mul(0x94d0_49bb_1331_11eb);
    z2 ^ (z2 >> 31)
}

/// The lowercase hex digit for `n < 16`.
pub open spec fn lower_hex_char(n: nat) -> char {
    if n < 10 {
        ((n as u32) + 48) as char
    } else {
        ((n as u32) + 87) as char
    }
}

/// The low `n` hex digits of `x`, most significant first, zero-padded:
/// `format!("{x:016x}")` for `n == 16`.
pub open spec fn hex_digits(x: nat, n: nat) -> Seq<char>
    decreases n,
{
    if n == 0 {
        Seq::<char>::empty()
    } else {
        hex_digits(x / 16, (n - 1) as nat).push(lower_hex_char(x % 16))
    }
}

/// The accumulator after `round` rounds of [`id_from`].
pub open spec fn id_acc(seed: u64, counter: u64, round: nat) -> u64
    decreases round,
{
    if round == 0 {
        seed ^ spec_splitmix(counter)
    } else {
        spec_splitmix(id_acc(seed, counter, (round - 1) as nat) ^ (round as u64))
    }
}

/// The hex of the first `rounds` accumulators, 16 digits each.
pub open spec fn id_stream(seed: u64, counter: u64, rounds: nat) -> Seq<char>
    decreases rounds,
{
    if rounds == 0 {
        Seq::<char>::empty()
    } else {
        id_stream(seed, counter, (rounds - 1) as nat) + hex_digits(
            id_acc(seed, counter, rounds) as nat,
            16,
        )
    }
}

/// Forces an id away from all-zero by making its last digit `1`; anything
/// else, including the empty id, is unchanged.
pub open spec fn spec_nonzero(id: Seq<char>) -> Seq<char> {
    if id.len() > 0 && all_zero(id) {
        id.drop_last().push('1')
    } else {
        id
    }
}

/// The id [`id_from`] derives.
pub open spec fn spec_id_from(seed: u64, counter: u64, bytes: nat) -> Seq<char> {
    spec_nonzero(id_stream(seed, counter, (bytes + 7) / 8).take((2 * bytes) as int))
}

proof fn lemma_hex_digits(x: nat, n: nat)
    ensures
        hex_digits(x, n).len() == n,
        all_lower_hex(hex_digits(x, n)),
    decreases n,
{
    if n > 0 {
        lemma_hex_digits(x / 16, (n - 1) as nat);
        let d = x % 16;
        assert(is_lower_hex_digit(lower_hex_char(d))) by {
            if d < 10 {
                assert((((d as u32) + 48) as char) as u32 == d + 48);
            } else {
                assert((((d as u32) + 87) as char) as u32 == d + 87);
            }
        }
        let h = hex_digits(x / 16, (n - 1) as nat);
        assert forall|i: int| 0 <= i < n implies #[trigger] is_lower_hex_digit(
            hex_digits(x, n)[i],
        ) by {
            if i < n - 1 {
                assert(hex_digits(x, n)[i] == h[i]);
            }
        }
    }
}

proof fn lemma_id_stream(seed: u64, counter: u64, rounds: nat)
    ensures
        id_stream(seed, counter, rounds).len() == 16 * rounds,
        all_lower_hex(id_stream(seed, counter, rounds)),
    decreases rounds,
{
    if rounds > 0 {
        lemma_id_stream(seed, counter, (rounds - 1) as nat);
        let a = id_stream(seed, counter, (rounds - 1) as nat);
        let h = hex_digits(id_acc(seed, counter, rounds) as nat, 16);
        lemma_hex_digits(id_acc(seed, counter, rounds) as nat, 16);
        assert forall|i: int| 0 <= i < (a + h).len() implies #[trigger] is_lower_hex_digit(
            (a + h)[i],
        ) by {
            if i < a.len() {
                assert((a + h)[i] == a[i]);
            } else {
                assert((a + h)[i] == h[i - a.len()]);
            }
        }
    }
}

/// The first accumulator: the seed mixed with the scattered counter, mixed
/// again with the round number.
pub(crate) proof fn lemma_first_acc(seed: u64, counter: u64)
    ensures
        id_acc(seed, counter, 1) == spec_splitmix((seed ^ spec_splitmix(counter)) ^ 1u64),
{
    assert(id_acc(seed, counter, 0) == seed ^ spec_splitmix(counter));
    assert((1nat as u64) == 1u64);
}

pub(crate) proof fn lemma_hex_len(x: nat, n: nat)
    ensures
        hex_digits(x, n).len() == n,
{
    lemma_hex_digits(x, n);
}

pub(crate) proof fn lemma_stream_len(seed: u64, counter: u64, rounds: nat)
    ensures
        id_stream(seed, counter, rounds).len() == 16 * rounds,
{
    lemma_id_stream(seed, counter, rounds);
}

/// The hex digits of zero are all `0`.
pub(crate) proof fn lemma_zero_digits(n: nat)
    ensures
        hex_digits(0, n).len() == n,
        all_zero(hex_digits(0, n)),
    decreases n,
{
    lemma_hex_digits(0, n);
    if n > 0 {
        lemma_zero_digits((n - 1) as nat);
        assert(lower_hex_char(0) == '0');
        let h = hex_digits(0, n);
        assert forall|i: int| 0 <= i < h.len() implies #[trigger] h[i] == '0' by {
            if i < n - 1 {
                assert(h[i] == hex_digits(0, (n - 1) as nat)[i]);
            }
        }
    }
}

/// Every id is exactly `2 * bytes` lowercase hex digits, and never all
/// zero unless it is empty.
pub proof fn lemma_id_shape(seed: u64, counter: u64, bytes: nat)
    ensures
        spec_id_from(seed, counter, bytes).len() == 2 * bytes,
        all_lower_hex(spec_id_from(seed, counter, bytes)),
        bytes > 0 ==> !all_zero(spec_id_from(seed, counter, bytes)),
{
    let rounds = (bytes + 7) / 8;
    lemma_id_stream(seed, counter, rounds);
    let s = id_stream(seed, counter, rounds).take((2 * bytes) as int);
    assert(s.len() == 2 * bytes);
    assert(all_lower_hex(s)) by {
        assert forall|i: int| 0 <= i < s.len() implies #[trigger] is_lower_hex_digit(s[i]) by {
            assert(s[i] == id_stream(seed, counter, rounds)[i]);
        }
    }
    lemma_nonzero_shape(s);
}

/// [`spec_nonzero`] keeps the width and the digits' kind, and its result is
/// never all zero unless empty.
pub proof fn lemma_nonzero_shape(s: Seq<char>)
    ensures
        spec_nonzero(s).len() == s.len(),
        all_lower_hex(s) ==> all_lower_hex(spec_nonzero(s)),
        s.len() > 0 ==> !all_zero(spec_nonzero(s)),
{
    if s.len() > 0 && all_zero(s) {
        let t = spec_nonzero(s);
        assert(t[t.len() - 1] == '1');
        assert forall|i: int| 0 <= i < t.len() implies #[trigger] is_lower_hex_digit(t[i]) by {
            if i < t.len() - 1 {
                assert(t[i] == s[i]);
            }
        }
    }
}

/// Appends the low `n` hex digits of `x` to `v`.
fn push_hex_digits(v: &mut Vec<char>, x: u64, n: usize)
    ensures
        final(v)@ == old(v)@ + hex_digits(x as nat, n as nat),
    decreases n,
{
    if n > 0 {
        push_hex_digits(v, x / 16, n - 1);
        let d: u8 = (x % 16) as u8;
        let c: char = if d < 10 {
            (d + 48) as char
        } else {
            (d + 87) as char
        };
        assert(c == lower_hex_char((x % 16) as nat));
        v.push(c);
        assert(final(v)@ =~= old(v)@ + hex_digits(x as nat, n as nat));
    } else {
        assert(final(v)@ =~= old(v)@ + hex_digits(x as nat, n as nat));
    }
}

/// The little-endian value of eight bytes.
pub open spec fn le_value(b: Seq<u8>) -> nat
    decreases b.len(),
{
    if b.len() == 0 {
        0
    } else {
        b[0] as nat + 256 * le_value(b.drop_first())
    }
}

/// The id seed: eight random bytes read as a little-endian integer, or,
/// for a process that could not read any, the wall clock's nanoseconds
/// mixed with the pid in both the high and the low half (an 8-byte span id
/// must see the pid too).
pub open spec fn spec_seed(random: Option<[u8; 8]>, nanos: u64, pid: u32) -> int {
    match random {
        Some(b) => le_value(b@) as int,
        None => (nanos ^ ((pid as u64) << 32u64) ^ (pid as u64)) as int,
    }
}

proof fn lemma_le_value_step(b: Seq<u8>, i: int)
    requires
        0 <= i < b.len(),
    ensures
        le_value(b.subrange(i, b.len() as int)) == b[i] as nat + 256 * le_value(
            b.subrange(i + 1, b.len() as int),
        ),
{
    assert(b.subrange(i, b.len() as int).drop_first() =~= b.subrange(i + 1, b.len() as int));
}

/// `256` to the power `n`.
spec fn pow256(n: nat) -> nat
    decreases n,
{
    if n == 0 {
        1
    } else {
        256 * pow256((n - 1) as nat)
    }
}

proof fn lemma_pow256_grows(a: nat, b: nat)
    requires
        a <= b,
    ensures
        pow256(a) <= pow256(b),
    decreases b,
{
    if a < b {
        lemma_pow256_grows(a, (b - 1) as nat);
    }
}

/// The per-process base for ids, from eight bytes of `/dev/urandom` when
/// they could be read (`random`), else from the wall clock's nanoseconds
/// and the pid.
pub fn seed_from(random: Option<[u8; 8]>, nanos: u64, pid: u32) -> (s: u64)
    ensures
        s as int == spec_seed(random, nanos, pid),
{
    match random {
        Some(b) => {
            proof {
                reveal_with_fuel(pow256, 8);
            }
            let mut acc: u64 = 0;
            let mut i: usize = 8;
            assert(b@.subrange(8, 8) =~= Seq::<u8>::empty());
            while i > 0
                invariant
                    i <= 8,
                    b@.len() == 8,
                    acc as nat == le_value(b@.subrange(i as int, 8)),
                    acc < pow256((8 - i) as nat),
                    pow256(7) == 0x100_0000_0000_0000,
                decreases i,
            {
                proof {
                    lemma_le_value_step(b@, i - 1);
                    assert(pow256((8 - i + 1) as nat) == 256 * pow256((8 - i) as nat));
                    if i > 1 {
                        lemma_pow256_grows((8 - i) as nat, 7);
                    }
                }
                i = i - 1;
                acc = acc * 256 + b[i] as u64;
            }
            assert(b@.subrange(0, 8) =~= b@);
            acc
        },
        None => {
            let p: u64 = pid as u64;
            nanos ^ (p << 32u64) ^ p
        },
    }
}

/// Force an id away from all-zero.
///
/// An all-zero id (of any non-zero width) gets `1` as its last digit;
/// every other id, the empty one included, is returned unchanged, so a
/// zero-width id stays empty.
pub fn nonzero(id: String) -> (r: String)
    ensures
        r@ == spec_nonzero(id@),
{
    let cs = chars_of(id.as_str());
    if cs.len() > 0 && all_zero_chars(&cs) {
        let n = cs.len();
        let mut r = String::new();
        let mut i: usize = 0;
        while i + 1 < n
            invariant
                n == cs@.len(),
                n > 0,
                i < n,
                r@ == cs@.take(i as int),
                all_zero(cs@),
            decreases n - i,
        {
            push_char(&mut r, '0');
            i = i + 1;
            assert(r@ =~= cs@.take(i as int));
        }
        push_char(&mut r, '1');
        assert(cs@.take(i as int) =~= cs@.drop_last());
        r
    } else {
        id
    }
}

/// `bytes * 2` lowercase hex characters, never all zero: the id derived
/// from a seed and a counter.
///
/// Each round mixes the accumulator with the round number and writes its
/// 16 hex digits; the digits are cut to the width asked for, and an
/// all-zero result is forced away from zero.
pub fn id_from(seed: u64, counter: u64, bytes: usize) -> (id: String)
    requires
        2 * bytes + 16 <= usize::MAX,
    ensures
        id@ == spec_id_from(seed, counter, bytes as nat),
{
    let rounds: usize = (bytes + 7) / 8;
    let mut stream: Vec<char> = Vec::new();
    let mut acc: u64 = seed ^ splitmix(counter);
    let mut round: usize = 0;
    while round < rounds
        invariant
            round <= rounds,
            rounds == (bytes + 7) / 8,
            2 * bytes + 16 <= usize::MAX,
            acc == id_acc(seed, counter, round as nat),
            stream@ == id_stream(seed, counter, round as nat),
        decreases rounds - round,
    {
        let k: u64 = (round as u64) + 1;
        acc = splitmix(acc ^ k);
        round = round + 1;
        push_hex_digits(&mut stream, acc, 16);
    }
    proof {
        lemma_id_stream(seed, counter, rounds as nat);
    }
    let width: usize = 2 * bytes;
    let mut out = String::new();
    let mut i: usize = 0;
    while i < width
        invariant
            i <= width,
            width == 2 * bytes,
            width <= stream@.len(),
            out@ == stream@.take(i as int),
        decreases width - i,
    {
        push_char(&mut out, stream[i]);
        i = i + 1;
        assert(out@ =~= stream@.take(i as int));
    }
    nonzero(out)
}

} // verus!
