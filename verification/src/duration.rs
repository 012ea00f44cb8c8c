use vstd::prelude::*;

verus! {

/// Nanoseconds in the longest representable span: `u64::MAX` seconds and 999,999,999 ns.
pub open spec fn max_nanos() -> int {
    u64::MAX as int * 1_000_000_000 + 999_999_999
}

/// A span of time with nanosecond precision, bounded as `std::time::Duration` is.
#[derive(Clone, Copy, Debug, PartialEq, Eq, Structural)]
pub struct Duration {
    nanos: u128,
}

impl View for Duration {
    type V = int;

    closed spec fn view(&self) -> int {
        self.nanos as int
    }
}

/// A duration is never negative.
pub proof fn lemma_duration_nonnegative(d: Duration)
    ensures
        d@ >= 0,
{
}

impl Duration {
    #[verifier::type_invariant]
    closed spec fn bounded(self) -> bool {
        self.nanos <= max_nanos()
    }

    pub fn zero() -> (d: Self)
        ensures
            d@ == 0,
    {
        Duration { nanos: 0 }
    }

    /// The longest representable span.
    pub fn max_value() -> (d: Self)
        ensures
            d@ == max_nanos(),
    {
        Duration { nanos: 18_446_744_073_709_551_615u128 * 1_000_000_000 + 999_999_999 }
    }

    pub fn from_secs(secs: u64) -> (d: Self)
        ensures
            d@ == secs * 1_000_000_000,
    {
        Duration { nanos: secs as u128 * 1_000_000_000 }
    }

    pub fn from_millis(millis: u64) -> (d: Self)
        ensures
            d@ == millis * 1_000_000,
    {
        Duration { nanos: millis as u128 * 1_000_000 }
    }

    pub fn from_nanos(nanos: u64) -> (d: Self)
        ensures
            d@ == nanos,
    {
        Duration { nanos: nanos as u128 }
    }

    /// Hours as a span; the count must fit in seconds, as `Duration::from_hours` requires.
    pub fn from_hours(hours: u64) -> (d: Self)
        requires
            hours * 3600 <= u64::MAX,
        ensures
            d@ == hours * 3600 * 1_000_000_000,
    {
        Duration { nanos: hours as u128 * 3600 * 1_000_000_000 }
    }

    /// The whole seconds of the span.
    pub fn as_secs(&self) -> (secs: u64)
        ensures
            secs == self@ / 1_000_000_000,
    {
        proof {
            use_type_invariant(self);
        }
        (self.nanos / 1_000_000_000) as u64
    }

    /// The nanoseconds beyond the whole seconds.
    pub fn subsec_nanos(&self) -> (nanos: u32)
        ensures
            nanos == self@ % 1_000_000_000,
    {
        (self.nanos % 1_000_000_000) as u32
    }

    pub fn as_nanos(&self) -> (n: u128)
        ensures
            n == self@,
            0 <= self@ <= max_nanos(),
    {
        proof {
            use_type_invariant(self);
        }
        self.nanos
    }

    pub fn is_zero(&self) -> (z: bool)
        ensures
            z == (self@ == 0),
            self@ >= 0,
    {
        self.nanos == 0
    }

    pub fn checked_add(&self, other: Duration) -> (sum: Option<Duration>)
        ensures
            match sum {
                Some(s) => s@ == self@ + other@ && self@ + other@ <= max_nanos(),
                None => self@ + other@ > max_nanos(),
            },
    {
        proof {
            use_type_invariant(self);
            use_type_invariant(&other);
        }
        let total = self.nanos + other.nanos;
        if total > 18_446_744_073_709_551_615u128 * 1_000_000_000 + 999_999_999 {
            None
        } else {
            Some(Duration { nanos: total })
        }
    }

    pub fn less_than(&self, other: &Duration) -> (r: bool)
        ensures
            r == (self@ < other@),
            self@ >= 0,
            other@ >= 0,
    {
        self.nanos < other.nanos
    }

    pub fn at_most(&self, other: &Duration) -> (r: bool)
        ensures
            r == (self@ <= other@),
    {
        self.nanos <= other.nanos
    }

    pub fn same_as(&self, other: &Duration) -> (r: bool)
        ensures
            r == (self@ == other@),
    {
        self.nanos == other.nanos
    }

    pub fn min(self, other: Duration) -> (m: Duration)
        ensures
            m@ == if self@ <= other@ {
                self@
            } else {
                other@
            },
    {
        if self.nanos <= other.nanos {
            self
        } else {
            other
        }
    }

    pub fn checked_mul(&self, factor: u32) -> (product: Option<Duration>)
        ensures
            match product {
                Some(p) => p@ == self@ * factor && self@ * factor <= max_nanos(),
                None => self@ * factor > max_nanos(),
            },
    {
        proof {
            use_type_invariant(self);
            assert(self.nanos as int * factor as int <= max_nanos() * 4294967295) by (nonlinear_arith)
                requires
                    self.nanos <= max_nanos(),
                    factor <= 4294967295u32,
            ;
        }
        let total = self.nanos * factor as u128;
        if total > 18_446_744_073_709_551_615u128 * 1_000_000_000 + 999_999_999 {
            None
        } else {
            Some(Duration { nanos: total })
        }
    }

    pub fn max(self, other: Duration) -> (m: Duration)
        ensures
            m@ == if self@ >= other@ {
                self@
            } else {
                other@
            },
    {
        if self.nanos >= other.nanos {
            self
        } else {
            other
        }
    }
}

} // verus!
