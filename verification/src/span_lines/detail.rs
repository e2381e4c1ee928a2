//! How much to emit.

use vstd::prelude::*;

use crate::text::{same_chars, trim, trimmed};

verus! {

/// How much to emit. Read once from `SPAN_LINES`.
///
/// The split exists because answering "in what order did these happen"
/// needs per-frame records while normal operation does not: a settled
/// session should be silent, and a bounded ramp is worth tens of records.
#[derive(Clone, Copy, PartialEq, Eq, PartialOrd, Ord, Debug, Structural)]
pub enum Detail {
    /// Emit nothing.
    Off,
    /// Session lifetime, phases and transitions. The default.
    Session,
    /// Adds per-wake and per-frame spans.
    Frames,
}

impl Detail {
    /// Position from quiet to loud; gating compares these.
    pub open spec fn rank(self) -> nat {
        match self {
            Detail::Off => 0,
            Detail::Session => 1,
            Detail::Frames => 2,
        }
    }

    /// `self` is at least as loud as `other`.
    pub fn at_least(self, other: Detail) -> (b: bool)
        ensures
            b == (self.rank() >= other.rank()),
    {
        let a: u8 = match self {
            Detail::Off => 0,
            Detail::Session => 1,
            Detail::Frames => 2,
        };
        let c: u8 = match other {
            Detail::Off => 0,
            Detail::Session => 1,
            Detail::Frames => 2,
        };
        a >= c
    }

    /// The louder of the two.
    pub fn louder(self, other: Detail) -> (d: Detail)
        ensures
            d == (if self.rank() >= other.rank() {
                self
            } else {
                other
            }),
    {
        if self.at_least(other) {
            self
        } else {
            other
        }
    }

    /// The level `SPAN_LINES` selects.
    pub open spec fn spec_parse(value: Option<Seq<char>>) -> Detail {
        match value {
            Some(v) => if trim(v) == "off"@ {
                Detail::Off
            } else if trim(v) == "frames"@ {
                Detail::Frames
            } else {
                Detail::Session
            },
            None => Detail::Session,
        }
    }

    /// The level named by a `SPAN_LINES` value: `off` and `frames`
    /// (surrounding white space ignored) select those levels, and anything
    /// else, including unset and a typo, is the safe middle: a typo must not
    /// silently turn tracing off.
    pub fn parse(value: Option<&str>) -> (d: Detail)
        ensures
            d == Detail::spec_parse(
                match value {
                    Some(v) => Some(v@),
                    None => None,
                },
            ),
    {
        match value {
            None => Detail::Session,
            Some(v) => {
                let t = trimmed(v);
                if same_chars(&t, "off") {
                    Detail::Off
                } else if same_chars(&t, "frames") {
                    Detail::Frames
                } else {
                    Detail::Session
                }
            },
        }
    }
}

} // verus!
