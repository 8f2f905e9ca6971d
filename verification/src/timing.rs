//! Spans of time measured by the host, and their reporting unit.

use vstd::prelude::*;

verus! {

/// A span of time: whole seconds and the nanoseconds beyond them.
pub struct TimeSpan {
    secs: u64,
    nanos: u32,
}

/// Nanoseconds in a second.
pub const NANOS_PER_SEC: u32 = 1_000_000_000;

impl TimeSpan {
    #[verifier::type_invariant]
    spec fn inv(self) -> bool {
        self.nanos < NANOS_PER_SEC
    }

    /// The length of the span in nanoseconds.
    pub closed spec fn total_nanos(self) -> nat {
        self.secs as nat * NANOS_PER_SEC as nat + self.nanos as nat
    }

    /// The span of `secs` seconds and `nanos` nanoseconds; nanoseconds beyond a
    /// second carry into the seconds, as `Duration::new` does.
    pub fn from_secs_nanos(secs: u64, nanos: u32) -> (t: TimeSpan)
        requires
            secs + nanos / NANOS_PER_SEC <= u64::MAX,
        ensures
            t.total_nanos() == secs as nat * NANOS_PER_SEC as nat + nanos as nat,
    {
        let carry = nanos / NANOS_PER_SEC;
        let rest = nanos % NANOS_PER_SEC;
        let t = TimeSpan { secs: secs + carry as u64, nanos: rest };
        assert(nanos as nat == carry as nat * NANOS_PER_SEC as nat + rest as nat);
        assert((secs + carry) as nat * NANOS_PER_SEC as nat == secs as nat * NANOS_PER_SEC as nat
            + carry as nat * NANOS_PER_SEC as nat) by (nonlinear_arith);
        t
    }

    /// The empty span.
    pub fn zero() -> (t: TimeSpan)
        ensures
            t.total_nanos() == 0,
    {
        TimeSpan { secs: 0, nanos: 0 }
    }
}

/// The whole number of microseconds in a span, as `Duration::as_micros` gives it.
pub fn dur_us(d: TimeSpan) -> (us: u128)
    ensures
        us == d.total_nanos() / 1000,
{
    proof {
        use_type_invariant(&d);
    }
    let us = d.secs as u128 * 1_000_000 + (d.nanos / 1000) as u128;
    assert(us == d.total_nanos() / 1000) by (nonlinear_arith)
        requires
            us == d.secs as nat * 1_000_000 + d.nanos as nat / 1000,
            d.total_nanos() == d.secs as nat * 1_000_000_000 + d.nanos as nat,
            d.nanos < 1_000_000_000,
    ;
    us
}

} // verus!
