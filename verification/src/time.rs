//! Lengths of time, and the clock.

use vstd::prelude::*;

verus! {

/// Nanoseconds in a second.
pub const NANOS_PER_SEC: u32 = 1_000_000_000;

/// A length of time: whole seconds, and nanoseconds short of another one.
#[derive(Clone, Copy, PartialEq, Eq, Debug)]
pub struct Span {
    secs: u64,
    nanos: u32,
}

impl Span {
    #[verifier::type_invariant]
    spec fn wf(self) -> bool {
        self.nanos < NANOS_PER_SEC
    }

    /// The length in nanoseconds.
    pub closed spec fn as_nanos(self) -> nat {
        self.secs as nat * NANOS_PER_SEC as nat + self.nanos as nat
    }

    /// The whole seconds of the length.
    pub open spec fn whole_secs(self) -> nat {
        self.as_nanos() / NANOS_PER_SEC as nat
    }

    /// A whole number of seconds.
    pub fn from_secs(secs: u64) -> (r: Self)
        ensures
            r.as_nanos() == secs * NANOS_PER_SEC,
    {
        Span { secs, nanos: 0 }
    }

    /// Seconds and nanoseconds, of which there have to be fewer than a second's worth.
    pub fn new(secs: u64, nanos: u32) -> (r: Self)
        requires
            nanos < NANOS_PER_SEC,
        ensures
            r.as_nanos() == secs * NANOS_PER_SEC + nanos,
    {
        Span { secs, nanos }
    }

    /// The whole seconds.
    pub fn as_secs(&self) -> (r: u64)
        ensures
            r == self.whole_secs(),
    {
        proof {
            use_type_invariant(self);
        }
        assert(self.secs == self.as_nanos() / NANOS_PER_SEC as nat) by (nonlinear_arith)
            requires
                self.as_nanos() == self.secs * 1_000_000_000 + self.nanos,
                self.nanos < 1_000_000_000,
                NANOS_PER_SEC == 1_000_000_000,
        ;
        self.secs
    }

    /// The sum of two lengths, or the longest length there is when that is longer.
    pub fn saturating_add(&self, other: Span) -> (r: Span)
        ensures
            r.as_nanos() == if self.as_nanos() + other.as_nanos() <= longest() {
                self.as_nanos() + other.as_nanos()
            } else {
                longest()
            },
    {
        proof {
            use_type_invariant(self);
            use_type_invariant(&other);
        }
        let nanos: u32 = self.nanos + other.nanos;
        let carry: u64 = if nanos >= NANOS_PER_SEC { 1 } else { 0 };
        let secs: u128 = self.secs as u128 + other.secs as u128 + carry as u128;
        if secs > u64::MAX as u128 {
            Span { secs: u64::MAX, nanos: NANOS_PER_SEC - 1 }
        } else {
            let rest: u32 = if nanos >= NANOS_PER_SEC { nanos - NANOS_PER_SEC } else { nanos };
            Span { secs: secs as u64, nanos: rest }
        }
    }

    /// The whole milliseconds, reduced to the low 64 bits when there are more.
    pub fn as_millis(&self) -> (r: i64)
        ensures
            r == (self.as_nanos() / 1_000_000) as i64,
    {
        proof {
            use_type_invariant(self);
        }
        let millis: u128 = self.secs as u128 * 1000 + (self.nanos / 1_000_000) as u128;
        assert(millis == self.as_nanos() / 1_000_000) by (nonlinear_arith)
            requires
                self.as_nanos() == self.secs * 1_000_000_000 + self.nanos,
                millis == self.secs * 1000 + self.nanos / 1_000_000,
        ;
        #[verifier::truncate]
        (millis as i64)
    }
}

/// The longest length of time there is, in nanoseconds.
pub open spec fn longest() -> nat {
    u64::MAX as nat * NANOS_PER_SEC as nat + (NANOS_PER_SEC - 1) as nat
}

/// Calls `SystemTime::elapsed` on the Unix epoch: the time since then as seconds and
/// nanoseconds short of another one, or nothing when the clock is set before it.
#[verifier::external_body]
fn elapsed_since_epoch() -> (elapsed: Option<(u64, u32)>)
    ensures
        elapsed matches Some(parts) ==> parts.1 < NANOS_PER_SEC,
{
    let elapsed = std::time::SystemTime::UNIX_EPOCH.elapsed().ok()?;
    Some((elapsed.as_secs(), elapsed.subsec_nanos()))
}

/// The time since the Unix epoch that a reading of the clock stands for. A clock set before
/// the epoch reads as the epoch itself.
pub fn since_epoch(reading: Option<(u64, u32)>) -> (r: Span)
    requires
        reading matches Some(parts) ==> parts.1 < NANOS_PER_SEC,
    ensures
        r.as_nanos() == match reading {
            Some(parts) => parts.0 * NANOS_PER_SEC + parts.1,
            None => 0,
        },
{
    match reading {
        Some((secs, nanos)) => Span::new(secs, nanos),
        None => Span::from_secs(0),
    }
}

/// The time since the Unix epoch, by the machine's clock.
pub fn now() -> (r: Span)
    ensures
        r.as_nanos() <= longest(),
{
    let r = since_epoch(elapsed_since_epoch());
    proof {
        use_type_invariant(&r);
    }
    r
}

/// The milliseconds since the Unix epoch, by the machine's clock. How many there are depends
/// on the clock alone; [`Span::as_millis`] says what is made of a reading.
pub fn now_millis() -> (r: i64)
    ensures
        exists|t: Span| t.as_nanos() <= longest() && r == #[trigger] (t.as_nanos() / 1_000_000) as i64,
{
    let t = now();
    t.as_millis()
}

} // verus!
