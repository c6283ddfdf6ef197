//! A span of time, counted in whole seconds and nanoseconds.
use vstd::arithmetic::div_mod::lemma_fundamental_div_mod_converse;
use vstd::prelude::*;

verus! {

pub const NANOS_PER_SEC: u64 = 1000000000;

pub const NANOS_PER_MILLI: u64 = 1000000;

pub const SECS_PER_MINUTE: u64 = 60;

pub const SECS_PER_HOUR: u64 = 3600;

/// The longest span a [`Duration`] holds, in nanoseconds.
pub open spec fn max_nanos() -> int {
    u64::MAX as int * NANOS_PER_SEC as int + (NANOS_PER_SEC as int - 1)
}

pub open spec fn min_int(a: int, b: int) -> int {
    if a <= b {
        a
    } else {
        b
    }
}

/// A span of time. Its view is its length in nanoseconds.
#[derive(Clone, Copy, Debug, PartialEq, Eq, Structural)]
pub struct Duration {
    secs: u64,
    nanos: u32,
}

impl View for Duration {
    type V = nat;

    closed spec fn view(&self) -> nat {
        self.secs as nat * NANOS_PER_SEC as nat + self.nanos as nat
    }
}

impl Duration {
    #[verifier::type_invariant]
    spec fn inv(self) -> bool {
        self.nanos < NANOS_PER_SEC
    }

    pub fn zero() -> (r: Duration)
        ensures
            r@ == 0,
    {
        Duration { secs: 0, nanos: 0 }
    }

    /// The longest duration there is.
    pub fn max_value() -> (r: Duration)
        ensures
            r@ == max_nanos(),
    {
        Duration { secs: u64::MAX, nanos: (NANOS_PER_SEC - 1) as u32 }
    }

    pub fn from_secs(secs: u64) -> (r: Duration)
        ensures
            r@ == secs as int * NANOS_PER_SEC as int,
    {
        Duration { secs, nanos: 0 }
    }

    pub fn from_millis(millis: u64) -> (r: Duration)
        ensures
            r@ == millis as int * NANOS_PER_MILLI as int,
    {
        let secs = millis / 1000;
        let rem = millis % 1000;
        let nanos = (rem * NANOS_PER_MILLI) as u32;
        let r = Duration { secs, nanos };
        assert(r@ == millis as int * NANOS_PER_MILLI as int) by {
            let m = millis as int;
            let q = secs as int;
            let k = rem as int;
            assert(m == q * 1000 + k);
            assert(q * 1000000000 + k * 1000000 == (q * 1000 + k) * 1000000) by (nonlinear_arith);
        }
        r
    }

    /// The whole seconds of this duration.
    pub fn as_secs(&self) -> (r: u64)
        ensures
            r as int == self@ as int / NANOS_PER_SEC as int,
    {
        proof {
            use_type_invariant(self);
            lemma_fundamental_div_mod_converse(
                self@ as int,
                NANOS_PER_SEC as int,
                self.secs as int,
                self.nanos as int,
            );
        }
        self.secs
    }

    /// The part of this duration below one second, in nanoseconds.
    pub fn subsec_nanos(&self) -> (r: u32)
        ensures
            r as int == self@ as int % NANOS_PER_SEC as int,
    {
        proof {
            use_type_invariant(self);
            lemma_fundamental_div_mod_converse(
                self@ as int,
                NANOS_PER_SEC as int,
                self.secs as int,
                self.nanos as int,
            );
        }
        self.nanos
    }

    pub fn is_zero(&self) -> (r: bool)
        ensures
            r == (self@ == 0),
    {
        self.secs == 0 && self.nanos == 0
    }

    /// The sum of two durations, or the longest duration where the sum is
    /// longer.
    pub fn saturating_add(self, other: Duration) -> (r: Duration)
        ensures
            r@ == min_int((self@ + other@) as int, max_nanos()),
    {
        proof {
            use_type_invariant(self);
            use_type_invariant(other);
        }
        let mut nanos: u32 = self.nanos + other.nanos;
        let mut carry: u64 = 0;
        if nanos >= NANOS_PER_SEC as u32 {
            nanos = nanos - NANOS_PER_SEC as u32;
            carry = 1;
        }
        assert(self.nanos + other.nanos == nanos + carry * NANOS_PER_SEC);
        let whole = self.secs as u128 + other.secs as u128 + carry as u128;
        if whole <= u64::MAX as u128 {
            let r = Duration { secs: whole as u64, nanos };
            assert(r@ == self@ + other@) by (nonlinear_arith)
                requires
                    r@ == whole * NANOS_PER_SEC + nanos,
                    self@ == self.secs * NANOS_PER_SEC + self.nanos,
                    other@ == other.secs * NANOS_PER_SEC + other.nanos,
                    whole == self.secs + other.secs + carry,
                    self.nanos + other.nanos == nanos + carry * NANOS_PER_SEC,
            ;
            assert(r@ <= max_nanos()) by (nonlinear_arith)
                requires
                    r@ == whole * NANOS_PER_SEC + nanos,
                    whole <= u64::MAX,
                    nanos < NANOS_PER_SEC,
                    max_nanos() == u64::MAX * NANOS_PER_SEC + (NANOS_PER_SEC - 1),
            ;
            r
        } else {
            assert(self@ + other@ > max_nanos()) by (nonlinear_arith)
                requires
                    self@ == self.secs * NANOS_PER_SEC + self.nanos,
                    other@ == other.secs * NANOS_PER_SEC + other.nanos,
                    whole == self.secs + other.secs + carry,
                    whole > u64::MAX,
                    self.nanos + other.nanos == nanos + carry * NANOS_PER_SEC,
                    max_nanos() == u64::MAX * NANOS_PER_SEC + (NANOS_PER_SEC - 1),
            ;
            Duration::max_value()
        }
    }
}

} // verus!
