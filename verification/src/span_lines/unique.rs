//! Ids do not repeat: SplitMix64 is a bijection, so within one process (one
//! seed) distinct counters give distinct ids, and distinct seeds give
//! distinct ids for the same counter.

use vstd::arithmetic::div_mod::{
    lemma_fundamental_div_mod, lemma_mul_mod_noop_left, lemma_mul_mod_noop_right, lemma_small_mod,
};
use vstd::arithmetic::mul::lemma_mul_is_associative;
use vstd::prelude::*;

use crate::span_lines::ids::{
    hex_digits, id_acc, id_stream, lemma_first_acc, lemma_hex_len, lemma_stream_len,
    lemma_zero_digits, lower_hex_char, spec_id_from, spec_nonzero, spec_splitmix,
};
use crate::text::all_zero;

verus! {

/// `2^64`.
spec fn modulus() -> int {
    0x1_0000_0000_0000_0000
}

/// Multiplying by `c` modulo `2^64` is undone by multiplying by `ci`.
proof fn lemma_mul_undo(x: u64, c: u64, ci: u64)
    requires
        (c as int * ci as int) % modulus() == 1,
    ensures
        ((x as int * c as int) % modulus()) * ci as int % modulus() == x as int,
{
    let m = modulus();
    lemma_mul_mod_noop_left(x as int * c as int, ci as int, m);
    lemma_mul_is_associative(x as int, c as int, ci as int);
    lemma_mul_mod_noop_right(x as int, c as int * ci as int, m);
    lemma_small_mod(x as nat, m as nat);
}

proof fn lemma_mul_injective(a: u64, b: u64, c: u64, ci: u64)
    requires
        (c as int * ci as int) % modulus() == 1,
        a.wrapping_mul(c) == b.wrapping_mul(c),
    ensures
        a == b,
{
    let m = modulus();
    assert(a.wrapping_mul(c) as int == (a as int * c as int) % m) by {
        vstd::arithmetic::div_mod::lemma_mod_bound(a as int * c as int, m);
    }
    assert(b.wrapping_mul(c) as int == (b as int * c as int) % m) by {
        vstd::arithmetic::div_mod::lemma_mod_bound(b as int * c as int, m);
    }
    lemma_mul_undo(a, c, ci);
    lemma_mul_undo(b, c, ci);
}

/// SplitMix64 is a bijection: distinct inputs give distinct outputs.
pub proof fn lemma_splitmix_injective(a: u64, b: u64)
    requires
        a != b,
    ensures
        spec_splitmix(a) != spec_splitmix(b),
{
    let a1 = a.wrapping_add(0x9e37_79b9_7f4a_7c15);
    let b1 = b.wrapping_add(0x9e37_79b9_7f4a_7c15);
    assert(a1 != b1);
    let a2 = a1 ^ (a1 >> 30);
    let b2 = b1 ^ (b1 >> 30);
    assert(a2 != b2) by (bit_vector)
        requires
            a1 != b1,
            a2 == a1 ^ (a1 >> 30),
            b2 == b1 ^ (b1 >> 30),
    ;
    let a3 = a2.wrapping_mul(0xbf58_476d_1ce4_e5b9);
    let b3 = b2.wrapping_mul(0xbf58_476d_1ce4_e5b9);
    assert((0xbf58_476d_1ce4_e5b9u64 as int * 0x96de_1b17_3f11_9089u64 as int) % modulus() == 1)
        by (nonlinear_arith);
    if a3 == b3 {
        lemma_mul_injective(a2, b2, 0xbf58_476d_1ce4_e5b9, 0x96de_1b17_3f11_9089);
    }
    let a4 = a3 ^ (a3 >> 27);
    let b4 = b3 ^ (b3 >> 27);
    assert(a4 != b4) by (bit_vector)
        requires
            a3 != b3,
            a4 == a3 ^ (a3 >> 27),
            b4 == b3 ^ (b3 >> 27),
    ;
    let a5 = a4.wrapping_mul(0x94d0_49bb_1331_11eb);
    let b5 = b4.wrapping_mul(0x94d0_49bb_1331_11eb);
    assert((0x94d0_49bb_1331_11ebu64 as int * 0x3196_42b2_d24d_8ec3u64 as int) % modulus() == 1)
        by (nonlinear_arith);
    if a5 == b5 {
        lemma_mul_injective(a4, b4, 0x94d0_49bb_1331_11eb, 0x3196_42b2_d24d_8ec3);
    }
    let a6 = a5 ^ (a5 >> 31);
    let b6 = b5 ^ (b5 >> 31);
    assert(a6 != b6) by (bit_vector)
        requires
            a5 != b5,
            a6 == a5 ^ (a5 >> 31),
            b6 == b5 ^ (b5 >> 31),
    ;
    assert(spec_splitmix(a) == a6);
    assert(spec_splitmix(b) == b6);
}

/// `16` to the power `n`.
spec fn pow16(n: nat) -> nat
    decreases n,
{
    if n == 0 {
        1
    } else {
        16 * pow16((n - 1) as nat)
    }
}

proof fn lemma_lower_hex_char_injective(a: nat, b: nat)
    requires
        a < 16,
        b < 16,
        lower_hex_char(a) == lower_hex_char(b),
    ensures
        a == b,
{
    assert(lower_hex_char(a) as u32 == if a < 10 {
        a + 48
    } else {
        a + 87
    });
    assert(lower_hex_char(b) as u32 == if b < 10 {
        b + 48
    } else {
        b + 87
    });
}

/// Numbers below `16^n` have distinct `n`-digit hex forms.
proof fn lemma_hex_digits_injective(x: nat, y: nat, n: nat)
    requires
        x < pow16(n),
        y < pow16(n),
        hex_digits(x, n) == hex_digits(y, n),
    ensures
        x == y,
    decreases n,
{
    if n > 0 {
        let p = pow16((n - 1) as nat);
        assert(x / 16 < p) by (nonlinear_arith)
            requires
                x < 16 * p,
        ;
        assert(y / 16 < p) by (nonlinear_arith)
            requires
                y < 16 * p,
        ;
        let hx = hex_digits(x, n);
        let hy = hex_digits(y, n);
        assert(hx.last() == lower_hex_char(x % 16));
        assert(hy.last() == lower_hex_char(y % 16));
        lemma_lower_hex_char_injective(x % 16, y % 16);
        assert(hx.drop_last() == hex_digits(x / 16, (n - 1) as nat));
        assert(hy.drop_last() == hex_digits(y / 16, (n - 1) as nat));
        lemma_hex_digits_injective(x / 16, y / 16, (n - 1) as nat);
        lemma_fundamental_div_mod(x as int, 16);
        lemma_fundamental_div_mod(y as int, 16);
    }
}

proof fn lemma_pow16_16()
    ensures
        pow16(16) == 0x1_0000_0000_0000_0000,
{
    reveal_with_fuel(pow16, 17);
}

/// The first 16 digits of an id of 8 bytes or more are the hex of the first
/// accumulator.
proof fn lemma_first_digits(seed: u64, counter: u64, rounds: nat)
    requires
        rounds >= 1,
    ensures
        id_stream(seed, counter, rounds).len() >= 16,
        id_stream(seed, counter, rounds).take(16) == hex_digits(id_acc(seed, counter, 1) as nat, 16),
    decreases rounds,
{
    lemma_stream_len(seed, counter, rounds);
    if rounds == 1 {
        assert(id_stream(seed, counter, 0) =~= Seq::<char>::empty());
        assert(id_stream(seed, counter, 1) =~= hex_digits(id_acc(seed, counter, 1) as nat, 16));
        assert(id_stream(seed, counter, 1).take(16) =~= id_stream(seed, counter, 1));
    } else {
        lemma_first_digits(seed, counter, (rounds - 1) as nat);
        lemma_stream_len(seed, counter, (rounds - 1) as nat);
        let prev = id_stream(seed, counter, (rounds - 1) as nat);
        let all = id_stream(seed, counter, rounds);
        assert(all.take(16) =~= prev.take(16));
    }
}

/// Ids whose first accumulators differ differ too, unless they are 8 bytes
/// wide and the accumulators are `0` and `1`: the all-zero guard turns the
/// hex of `0` into that of `1`.
proof fn lemma_distinct_accumulators(s1: u64, c1: u64, s2: u64, c2: u64, bytes: nat)
    requires
        bytes >= 8,
        id_acc(s1, c1, 1) != id_acc(s2, c2, 1),
        bytes == 8 ==> !(id_acc(s1, c1, 1) == 0 && id_acc(s2, c2, 1) == 1),
        bytes == 8 ==> !(id_acc(s1, c1, 1) == 1 && id_acc(s2, c2, 1) == 0),
    ensures
        spec_id_from(s1, c1, bytes) != spec_id_from(s2, c2, bytes),
{
    let rounds = (bytes + 7) / 8;
    lemma_fundamental_div_mod(bytes + 7int, 8);
    assert(16 * rounds >= 2 * bytes);
    let a1 = id_acc(s1, c1, 1);
    let a2 = id_acc(s2, c2, 1);
    lemma_first_digits(s1, c1, rounds);
    lemma_first_digits(s2, c2, rounds);
    lemma_stream_len(s1, c1, rounds);
    lemma_stream_len(s2, c2, rounds);
    let r1 = id_stream(s1, c1, rounds).take((2 * bytes) as int);
    let r2 = id_stream(s2, c2, rounds).take((2 * bytes) as int);
    let h1 = hex_digits(a1 as nat, 16);
    let h2 = hex_digits(a2 as nat, 16);
    assert(r1.take(16) =~= h1);
    assert(r2.take(16) =~= h2);
    lemma_pow16_16();
    if h1 == h2 {
        lemma_hex_digits_injective(a1 as nat, a2 as nat, 16);
    }
    assert(h1 != h2);
    let i1 = spec_nonzero(r1);
    let i2 = spec_nonzero(r2);
    if i1 == i2 {
        if bytes > 8 {
            // The guard changes at most the last digit, past the first 16.
            assert(i1.take(16) =~= r1.take(16));
            assert(i2.take(16) =~= r2.take(16));
        } else {
            assert(r1 =~= h1);
            assert(r2 =~= h2);
            lemma_hex_zero_one(a1, a2);
        }
    }
}

/// For 16 hex digits, the all-zero guard maps the hex of `a` onto the hex of
/// `b != a` only when `a` and `b` are `0` and `1`.
proof fn lemma_hex_zero_one(a: u64, b: u64)
    requires
        a != b,
        !(a == 0 && b == 1),
        !(a == 1 && b == 0),
    ensures
        spec_nonzero(hex_digits(a as nat, 16)) != spec_nonzero(hex_digits(b as nat, 16)),
{
    lemma_pow16_16();
    let ha = hex_digits(a as nat, 16);
    let hb = hex_digits(b as nat, 16);
    lemma_hex_len(a as nat, 16);
    lemma_hex_len(b as nat, 16);
    if ha == hb {
        lemma_hex_digits_injective(a as nat, b as nat, 16);
    }
    let za = ha.len() > 0 && all_zero(ha);
    let zb = hb.len() > 0 && all_zero(hb);
    if spec_nonzero(ha) == spec_nonzero(hb) {
        if za && !zb {
            // a's digits are all zero, so a is zero and b is one.
            lemma_all_zero_hex(a as nat, 16);
            assert(hb =~= spec_nonzero(ha));
            assert(spec_nonzero(ha) == hex_digits(1, 16)) by {
                lemma_all_zero_is_zero_digits(ha);
                lemma_one_digits();
            }
            lemma_hex_digits_injective(b as nat, 1, 16);
        } else if zb && !za {
            lemma_all_zero_hex(b as nat, 16);
            assert(ha =~= spec_nonzero(hb));
            assert(spec_nonzero(hb) == hex_digits(1, 16)) by {
                lemma_all_zero_is_zero_digits(hb);
                lemma_one_digits();
            }
            lemma_hex_digits_injective(a as nat, 1, 16);
        } else if za && zb {
            lemma_all_zero_hex(a as nat, 16);
            lemma_all_zero_hex(b as nat, 16);
        }
    }
}

/// Hex digits that are all `0` are those of a number divisible by `16^n`.
proof fn lemma_all_zero_hex(x: nat, n: nat)
    requires
        all_zero(hex_digits(x, n)),
        x < pow16(n),
    ensures
        x == 0,
    decreases n,
{
    if n > 0 {
        let p = pow16((n - 1) as nat);
        assert(x / 16 < p) by (nonlinear_arith)
            requires
                x < 16 * p,
        ;
        let h = hex_digits(x, n);
        lemma_hex_len(x, n);
        assert(h.last() == '0');
        assert(h.last() == lower_hex_char(x % 16));
        lemma_lower_hex_char_injective(x % 16, 0);
        assert(all_zero(hex_digits(x / 16, (n - 1) as nat))) by {
            assert forall|i: int| 0 <= i < hex_digits(x / 16, (n - 1) as nat).len() implies #[trigger] hex_digits(
                x / 16,
                (n - 1) as nat,
            )[i] == '0' by {
                assert(h.drop_last()[i] == h[i]);
            }
        }
        lemma_all_zero_hex(x / 16, (n - 1) as nat);
        lemma_fundamental_div_mod(x as int, 16);
    }
}

proof fn lemma_all_zero_is_zero_digits(h: Seq<char>)
    requires
        h.len() == 16,
        all_zero(h),
    ensures
        h == hex_digits(0, 16),
{
    lemma_zero_digits(16);
    assert(h =~= hex_digits(0, 16));
}

proof fn lemma_one_digits()
    ensures
        spec_nonzero(hex_digits(0, 16)) == hex_digits(1, 16),
{
    lemma_zero_digits(16);
    lemma_zero_digits(15);
    lemma_hex_len(0, 16);
    assert(hex_digits(1, 16) == hex_digits(0, 15).push(lower_hex_char(1)));
    assert(lower_hex_char(1) == '1');
    assert(hex_digits(0, 16) == hex_digits(0, 15).push(lower_hex_char(0)));
    assert(spec_nonzero(hex_digits(0, 16)) =~= hex_digits(1, 16));
}

/// Distinct mixes of seed and counter give distinct first accumulators.
proof fn lemma_acc_injective(x1: u64, x2: u64)
    requires
        x1 != x2,
    ensures
        spec_splitmix(x1 ^ 1u64) != spec_splitmix(x2 ^ 1u64),
{
    let y1 = x1 ^ 1u64;
    let y2 = x2 ^ 1u64;
    assert(y1 != y2) by (bit_vector)
        requires
            x1 != x2,
            y1 == x1 ^ 1u64,
            y2 == x2 ^ 1u64,
    ;
    lemma_splitmix_injective(y1, y2);
}

proof fn lemma_xor_injective(a: u64, b: u64, k: u64)
    requires
        a != b,
    ensures
        a ^ k != b ^ k,
{
    let x = a ^ k;
    let y = b ^ k;
    assert(x != y) by (bit_vector)
        requires
            a != b,
            x == a ^ k,
            y == b ^ k,
    ;
}

/// Within one process, ids do not repeat: for one seed, distinct counters
/// give distinct ids of any width from 8 bytes up. The single exception is
/// 8-byte ids whose first accumulators are `0` and `1`, which the all-zero
/// guard makes equal.
pub proof fn lemma_ids_do_not_repeat(seed: u64, c1: u64, c2: u64, bytes: nat)
    requires
        c1 != c2,
        bytes >= 8,
        bytes == 8 ==> !(id_acc(seed, c1, 1) == 0 && id_acc(seed, c2, 1) == 1),
        bytes == 8 ==> !(id_acc(seed, c1, 1) == 1 && id_acc(seed, c2, 1) == 0),
    ensures
        spec_id_from(seed, c1, bytes) != spec_id_from(seed, c2, bytes),
{
    lemma_splitmix_injective(c1, c2);
    let k1 = spec_splitmix(c1);
    let k2 = spec_splitmix(c2);
    lemma_xor_injective(k1, k2, seed);
    assert(seed ^ k1 == k1 ^ seed && seed ^ k2 == k2 ^ seed) by (bit_vector);
    lemma_acc_injective(seed ^ k1, seed ^ k2);
    lemma_first_acc(seed, c1);
    lemma_first_acc(seed, c2);
    lemma_distinct_accumulators(seed, c1, seed, c2, bytes);
}

/// The seed reaches every id: for one counter, distinct seeds give distinct
/// ids of any width from 8 bytes up, with the same single exception as
/// [`lemma_ids_do_not_repeat`].
pub proof fn lemma_seed_reaches_ids(s1: u64, s2: u64, counter: u64, bytes: nat)
    requires
        s1 != s2,
        bytes >= 8,
        bytes == 8 ==> !(id_acc(s1, counter, 1) == 0 && id_acc(s2, counter, 1) == 1),
        bytes == 8 ==> !(id_acc(s1, counter, 1) == 1 && id_acc(s2, counter, 1) == 0),
    ensures
        spec_id_from(s1, counter, bytes) != spec_id_from(s2, counter, bytes),
{
    let k = spec_splitmix(counter);
    lemma_xor_injective(s1, s2, k);
    lemma_acc_injective(s1 ^ k, s2 ^ k);
    lemma_first_acc(s1, counter);
    lemma_first_acc(s2, counter);
    lemma_distinct_accumulators(s1, counter, s2, counter, bytes);
}

} // verus!
