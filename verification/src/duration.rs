//! Spans of time with nanosecond precision.

use vstd::prelude::*;

verus! {

/// The number of nanoseconds in a second.
pub const NANOS_PER_SECOND: u128 = 1_000_000_000;

/// The number of nanoseconds in a millisecond.
pub const NANOS_PER_MILLISECOND: u128 = 1_000_000;

/// The longest span: `u64::MAX` seconds and 999999999 nanoseconds.
pub const MAXIMUM_NANOS: u128 = 18_446_744_073_709_551_615_999_999_999;

/// A span of time. Its view is its length in nanoseconds.
#[derive(Clone, Copy, Debug, PartialEq, Eq, Structural)]
pub struct Duration {
    nanos: u128,
}

impl Duration {
    #[verifier::type_invariant]
    pub closed spec fn in_range(self) -> bool {
        self.nanos <= MAXIMUM_NANOS
    }

    /// The length in nanoseconds.
    pub closed spec fn view(self) -> nat {
        self.nanos as nat
    }

    /// Two spans of the same length are the same span.
    pub proof fn law_equal_lengths_are_equal_spans(a: Duration, b: Duration)
        ensures
            (a == b) == (a@ == b@),
    {
    }

    /// The span of no length.
    pub fn zero() -> (r: Duration)
        ensures
            r@ == 0,
    {
        Duration { nanos: 0 }
    }

    /// A span of whole seconds.
    pub fn from_secs(secs: u64) -> (r: Duration)
        ensures
            r@ == secs * NANOS_PER_SECOND,
    {
        Duration { nanos: secs as u128 * NANOS_PER_SECOND }
    }

    /// A span of whole milliseconds.
    pub fn from_millis(millis: u64) -> (r: Duration)
        ensures
            r@ == millis * NANOS_PER_MILLISECOND,
    {
        Duration { nanos: millis as u128 * NANOS_PER_MILLISECOND }
    }

    /// Whole seconds and the nanoseconds beyond them. `None` where a second or
    /// more stands in the nanoseconds.
    pub fn from_parts(secs: u64, nanos: u32) -> (r: Option<Duration>)
        ensures
            r is Some <==> nanos < NANOS_PER_SECOND,
            r matches Some(d) ==> d@ == secs * NANOS_PER_SECOND + nanos,
    {
        if (nanos as u128) < NANOS_PER_SECOND {
            Some(Duration { nanos: secs as u128 * NANOS_PER_SECOND + nanos as u128 })
        } else {
            None
        }
    }

    /// The whole seconds of the span.
    pub fn as_secs(&self) -> (r: u64)
        ensures
            r as nat == self@ / (NANOS_PER_SECOND as nat),
    {
        proof {
            use_type_invariant(self);
        }
        (self.nanos / NANOS_PER_SECOND) as u64
    }

    /// The whole milliseconds of the span.
    pub fn as_millis(&self) -> (r: u128)
        ensures
            r as nat == self@ / (NANOS_PER_MILLISECOND as nat),
    {
        self.nanos / NANOS_PER_MILLISECOND
    }

    /// The nanoseconds of the span.
    pub fn as_nanos(&self) -> (r: u128)
        ensures
            r as nat == self@,
            r <= MAXIMUM_NANOS,
    {
        proof {
            use_type_invariant(self);
        }
        self.nanos
    }

    /// The nanoseconds beyond the whole seconds.
    pub fn subsec_nanos(&self) -> (r: u32)
        ensures
            r as nat == self@ % (NANOS_PER_SECOND as nat),
    {
        (self.nanos % NANOS_PER_SECOND) as u32
    }

    /// Whether the span has no length.
    pub fn is_zero(&self) -> (r: bool)
        ensures
            r == (self@ == 0),
    {
        self.nanos == 0
    }

    /// Whether this span is no longer than another.
    pub fn at_most(&self, other: &Duration) -> (r: bool)
        ensures
            r == (self@ <= other@),
    {
        self.nanos <= other.nanos
    }

    /// The sum, where it is in range.
    pub fn checked_add(&self, other: &Duration) -> (r: Option<Duration>)
        ensures
            r is Some <==> self@ + other@ <= MAXIMUM_NANOS,
            r matches Some(d) ==> d@ == self@ + other@,
    {
        proof {
            use_type_invariant(self);
            use_type_invariant(other);
        }
        let total: u128 = self.nanos + other.nanos;
        if total <= MAXIMUM_NANOS {
            Some(Duration { nanos: total })
        } else {
            None
        }
    }

    /// The multiple, where it is in range.
    pub fn checked_mul(&self, factor: u32) -> (r: Option<Duration>)
        ensures
            r is Some <==> self@ * factor <= MAXIMUM_NANOS,
            r matches Some(d) ==> d@ == self@ * factor,
    {
        proof {
            use_type_invariant(self);
            assert(self.nanos * factor <= MAXIMUM_NANOS * 0xFFFF_FFFF) by (nonlinear_arith)
                requires
                    self.nanos <= MAXIMUM_NANOS,
                    factor <= 0xFFFF_FFFF,
            ;
            assert(MAXIMUM_NANOS * 0xFFFF_FFFF <= u128::MAX) by (nonlinear_arith);
        }
        let total: u128 = self.nanos * factor as u128;
        if total <= MAXIMUM_NANOS {
            Some(Duration { nanos: total })
        } else {
            None
        }
    }

    /// The difference, or no length where the other span is longer.
    pub fn saturating_sub(&self, other: &Duration) -> (r: Duration)
        ensures
            r@ == if self@ >= other@ {
                (self@ - other@) as nat
            } else {
                0
            },
    {
        proof {
            use_type_invariant(self);
        }
        if self.nanos >= other.nanos {
            Duration { nanos: self.nanos - other.nanos }
        } else {
            Duration { nanos: 0 }
        }
    }
}

} // verus!
