//! A span of time, in nanoseconds, with the range and the saturating
//! arithmetic of `std::time::Duration`.

use vstd::prelude::*;

verus! {

pub const NANOS_PER_SEC: u128 = 1_000_000_000;

/// The longest representable duration, in nanoseconds: `u64::MAX` seconds
/// and 999 999 999 nanoseconds.
pub const MAX_NANOS: u128 = 18_446_744_073_709_551_615_999_999_999;

pub open spec fn spec_min(a: nat, b: nat) -> nat {
    if a <= b {
        a
    } else {
        b
    }
}

/// A span of time.
#[derive(Clone, Copy, PartialEq, Eq, Debug, Structural)]
pub struct Duration {
    nanos: u128,
}

impl View for Duration {
    type V = nat;

    /// Its length in nanoseconds.
    closed spec fn view(&self) -> nat {
        self.nanos as nat
    }
}

impl Duration {
    #[verifier::type_invariant]
    spec fn in_range(self) -> bool {
        self.nanos <= MAX_NANOS
    }

    /// The empty duration.
    pub fn zero() -> (d: Duration)
        ensures
            d@ == 0,
    {
        Duration { nanos: 0 }
    }

    /// The longest duration, which saturating addition stops at.
    pub fn max() -> (d: Duration)
        ensures
            d@ == MAX_NANOS as nat,
    {
        Duration { nanos: MAX_NANOS }
    }

    /// `secs` seconds and `nanos` nanoseconds (which may exceed a second).
    pub fn new(secs: u64, nanos: u32) -> (d: Duration)
        requires
            secs as nat + nanos as nat / 1_000_000_000 <= u64::MAX,
        ensures
            d@ == secs as nat * 1_000_000_000 + nanos as nat,
    {
        let total: u128 = (secs as u128) * NANOS_PER_SEC + (nanos as u128);
        Duration { nanos: total }
    }

    pub fn from_secs(secs: u64) -> (d: Duration)
        ensures
            d@ == secs as nat * 1_000_000_000,
    {
        Duration { nanos: (secs as u128) * NANOS_PER_SEC }
    }

    pub fn from_millis(millis: u64) -> (d: Duration)
        ensures
            d@ == millis as nat * 1_000_000,
    {
        Duration { nanos: (millis as u128) * 1_000_000 }
    }

    pub fn from_micros(micros: u64) -> (d: Duration)
        ensures
            d@ == micros as nat * 1_000,
    {
        Duration { nanos: (micros as u128) * 1_000 }
    }

    pub fn from_nanos(nanos: u64) -> (d: Duration)
        ensures
            d@ == nanos as nat,
    {
        Duration { nanos: nanos as u128 }
    }

    pub fn as_nanos(&self) -> (n: u128)
        ensures
            n == self@,
    {
        self.nanos
    }

    pub fn as_micros(&self) -> (n: u128)
        ensures
            n == self@ / 1_000,
    {
        self.nanos / 1_000
    }

    /// Whole seconds.
    pub fn as_secs(&self) -> (s: u64)
        ensures
            s == self@ / 1_000_000_000,
    {
        proof {
            use_type_invariant(self);
        }
        (self.nanos / NANOS_PER_SEC) as u64
    }

    /// The nanoseconds past the whole seconds.
    pub fn subsec_nanos(&self) -> (n: u32)
        ensures
            n == self@ % 1_000_000_000,
    {
        (self.nanos % NANOS_PER_SEC) as u32
    }

    /// The shorter of the two; `self` when they are equal.
    pub fn min(self, other: Duration) -> (d: Duration)
        ensures
            d == (if self@ <= other@ {
                self
            } else {
                other
            }),
            d@ == spec_min(self@, other@),
    {
        if self.nanos <= other.nanos {
            self
        } else {
            other
        }
    }

    /// `self + other`, or the longest duration if that overflows.
    pub fn saturating_add(self, other: Duration) -> (d: Duration)
        ensures
            d@ == spec_min(self@ + other@, MAX_NANOS as nat),
    {
        proof {
            use_type_invariant(&self);
            use_type_invariant(&other);
        }
        let sum: u128 = self.nanos + other.nanos;
        if sum > MAX_NANOS {
            Duration { nanos: MAX_NANOS }
        } else {
            Duration { nanos: sum }
        }
    }

    /// `self - other`, or zero if `other` is longer.
    pub fn saturating_sub(self, other: Duration) -> (d: Duration)
        ensures
            d@ == (if self@ >= other@ {
                self@ - other@
            } else {
                0
            }),
    {
        proof {
            use_type_invariant(&self);
        }
        if self.nanos >= other.nanos {
            Duration { nanos: self.nanos - other.nanos }
        } else {
            Duration { nanos: 0 }
        }
    }
}

/// `std::time::Duration::as_secs`: the whole seconds of a std duration.
/// Nothing is stated of the value, which Verus cannot see inside.
#[verifier::external_body]
fn std_whole_secs(d: &core::time::Duration) -> (secs: u64) {
    d.as_secs()
}

/// `std::time::Duration::subsec_nanos`: the nanoseconds past the whole
/// seconds, which std documents as always less than one billion.
#[verifier::external_body]
fn std_subsec_nanos(d: &core::time::Duration) -> (nanos: u32)
    ensures
        nanos < 1_000_000_000,
{
    d.subsec_nanos()
}

/// The same length as a std duration: its whole seconds and its
/// nanoseconds past them.
pub fn from_std(d: core::time::Duration) -> (r: Duration)
    ensures
        exists|secs: u64, nanos: u32|
            nanos < 1_000_000_000 && r@ == #[trigger] (secs as nat * 1_000_000_000 + nanos as nat),
{
    let secs = std_whole_secs(&d);
    let nanos = std_subsec_nanos(&d);
    let r = Duration::new(secs, nanos);
    assert(nanos < 1_000_000_000 && r@ == secs as nat * 1_000_000_000 + nanos as nat);
    r
}

} // verus!
