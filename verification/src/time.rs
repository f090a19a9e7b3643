//! A span of time with nanosecond resolution.
use vstd::prelude::*;

verus! {

/// Nanoseconds in one second.
pub const NANOS_PER_SEC: u32 = 1_000_000_000;

/// Nanoseconds in one millisecond.
pub const NANOS_PER_MILLI: u32 = 1_000_000;

/// Nanoseconds in one microsecond.
pub const NANOS_PER_MICRO: u32 = 1_000;

/// A span of time: whole seconds plus a fraction below one second.
///
/// Two spans are equal exactly when they last equally long, because the
/// fraction is always kept below one second.
#[derive(Clone, Copy, Debug, PartialEq, Eq, Structural)]
pub struct Duration {
    secs: u64,
    nanos: u32,
}

impl Duration {
    /// The fraction is below one second. Holds of every span that executable
    /// code can hold.
    #[verifier::type_invariant]
    pub closed spec fn wf(self) -> bool {
        self.nanos < NANOS_PER_SEC
    }

    /// The length of the span in nanoseconds.
    pub closed spec fn view(self) -> nat {
        (self.secs as nat) * (NANOS_PER_SEC as nat) + (self.nanos as nat)
    }

    /// The longest span that can be represented, in nanoseconds.
    pub open spec fn max_nanos() -> nat {
        (u64::MAX as nat) * (NANOS_PER_SEC as nat) + (NANOS_PER_SEC as nat - 1) as nat
    }

    /// The span of `nanos` nanoseconds.
    pub closed spec fn of_nanos(nanos: nat) -> Duration {
        Duration {
            secs: (nanos / (NANOS_PER_SEC as nat)) as u64,
            nanos: (nanos % (NANOS_PER_SEC as nat)) as u32,
        }
    }

    /// A span that can be represented has the length that it was made for.
    pub proof fn lemma_of_nanos(nanos: nat)
        requires
            nanos <= Duration::max_nanos(),
        ensures
            Duration::of_nanos(nanos)@ == nanos,
            Duration::of_nanos(nanos).wf(),
    {
        assert(nanos / 1_000_000_000 <= u64::MAX && (nanos / 1_000_000_000) * 1_000_000_000 + nanos
            % 1_000_000_000 == nanos) by (nonlinear_arith)
            requires
                nanos <= (u64::MAX as nat) * 1_000_000_000 + 999_999_999,
        ;
    }

    /// A span is the span of its length.
    pub proof fn lemma_is_of_nanos(self)
        requires
            self.wf(),
        ensures
            self == Duration::of_nanos(self@),
            self@ <= Duration::max_nanos(),
    {
        assert(self@ / 1_000_000_000 == self.secs && self@ % 1_000_000_000 == self.nanos) by (nonlinear_arith)
            requires
                self.nanos < 1_000_000_000,
                self@ == (self.secs as nat) * 1_000_000_000 + (self.nanos as nat),
        ;
        assert((self.secs as nat) * 1_000_000_000 <= (u64::MAX as nat) * 1_000_000_000)
            by (nonlinear_arith);
    }

    /// Spans are determined by their length.
    pub proof fn lemma_view_injective(a: Duration, b: Duration)
        requires
            a.wf(),
            b.wf(),
            a@ == b@,
        ensures
            a == b,
    {
        assert(a.secs == b.secs) by (nonlinear_arith)
            requires
                a.nanos < 1_000_000_000,
                b.nanos < 1_000_000_000,
                (a.secs as nat) * 1_000_000_000 + (a.nanos as nat) == (b.secs as nat)
                    * 1_000_000_000 + (b.nanos as nat),
        ;
    }

    /// A span of `secs` seconds and `nanos` nanoseconds. Nanoseconds beyond
    /// one second carry over into the seconds.
    pub fn new(secs: u64, nanos: u32) -> (d: Duration)
        requires
            secs + nanos / NANOS_PER_SEC <= u64::MAX,
        ensures
            d@ == secs as nat * NANOS_PER_SEC as nat + nanos as nat,
            d.wf(),
    {
        let carry: u32 = nanos / NANOS_PER_SEC;
        let rest: u32 = nanos % NANOS_PER_SEC;
        let d = Duration { secs: secs + carry as u64, nanos: rest };
        assert(d@ == secs as nat * NANOS_PER_SEC as nat + nanos as nat) by (nonlinear_arith)
            requires
                d.secs == secs + nanos / NANOS_PER_SEC,
                d.nanos == nanos % NANOS_PER_SEC,
                d@ == (d.secs as nat) * (NANOS_PER_SEC as nat) + (d.nanos as nat),
                NANOS_PER_SEC == 1_000_000_000,
        ;
        d
    }

    /// A span of whole seconds.
    pub fn from_secs(secs: u64) -> (d: Duration)
        ensures
            d@ == secs as nat * 1_000_000_000,
            d.wf(),
    {
        Duration { secs, nanos: 0 }
    }

    /// A span of whole milliseconds.
    pub fn from_millis(millis: u64) -> (d: Duration)
        ensures
            d@ == millis as nat * 1_000_000,
            d.wf(),
    {
        let secs: u64 = millis / 1_000;
        let sub: u32 = (millis % 1_000) as u32;
        let d = Duration { secs, nanos: sub * NANOS_PER_MILLI };
        assert(d@ == millis as nat * 1_000_000) by (nonlinear_arith)
            requires
                d.secs == millis / 1_000,
                d.nanos == (millis % 1_000) * 1_000_000,
                d@ == (d.secs as nat) * (NANOS_PER_SEC as nat) + (d.nanos as nat),
                NANOS_PER_SEC == 1_000_000_000,
        ;
        d
    }

    /// A span of whole microseconds.
    pub fn from_micros(micros: u64) -> (d: Duration)
        ensures
            d@ == micros as nat * 1_000,
            d.wf(),
    {
        let secs: u64 = micros / 1_000_000;
        let sub: u32 = (micros % 1_000_000) as u32;
        let d = Duration { secs, nanos: sub * NANOS_PER_MICRO };
        assert(d@ == micros as nat * 1_000) by (nonlinear_arith)
            requires
                d.secs == micros / 1_000_000,
                d.nanos == (micros % 1_000_000) * 1_000,
                d@ == (d.secs as nat) * (NANOS_PER_SEC as nat) + (d.nanos as nat),
                NANOS_PER_SEC == 1_000_000_000,
        ;
        d
    }

    /// A span of whole nanoseconds.
    pub fn from_nanos(nanos: u64) -> (d: Duration)
        ensures
            d@ == nanos as nat,
            d.wf(),
    {
        let secs: u64 = nanos / 1_000_000_000;
        let sub: u32 = (nanos % 1_000_000_000) as u32;
        let d = Duration { secs, nanos: sub };
        assert(d@ == nanos as nat) by (nonlinear_arith)
            requires
                d.secs == nanos / 1_000_000_000,
                d.nanos == nanos % 1_000_000_000,
                d@ == (d.secs as nat) * (NANOS_PER_SEC as nat) + (d.nanos as nat),
                NANOS_PER_SEC == 1_000_000_000,
        ;
        d
    }

    /// The span of `nanos` nanoseconds, where it can be represented.
    pub fn checked_from_nanos(nanos: u128) -> (r: Option<Duration>)
        ensures
            r is Some <==> nanos <= Duration::max_nanos(),
            r matches Some(d) ==> d@ == nanos as nat && d.wf(),
    {
        let secs: u128 = nanos / 1_000_000_000;
        let sub: u32 = (nanos % 1_000_000_000) as u32;
        assert(secs <= u64::MAX <==> nanos <= Duration::max_nanos()) by (nonlinear_arith)
            requires
                secs == nanos / 1_000_000_000,
                Duration::max_nanos() == (u64::MAX as nat) * 1_000_000_000 + 999_999_999,
        ;
        if secs > u64::MAX as u128 {
            None
        } else {
            let d = Duration { secs: secs as u64, nanos: sub };
            assert(d@ == nanos as nat) by (nonlinear_arith)
                requires
                    d.secs == nanos / 1_000_000_000,
                    d.nanos == nanos % 1_000_000_000,
                    d@ == (d.secs as nat) * (NANOS_PER_SEC as nat) + (d.nanos as nat),
                    NANOS_PER_SEC == 1_000_000_000,
            ;
            Some(d)
        }
    }

    /// The whole seconds of the span.
    pub fn as_secs(&self) -> (r: u64)
        ensures
            r == self@ / 1_000_000_000,
    {
        proof {
            use_type_invariant(self);
            assert(self@ / 1_000_000_000 == self.secs) by (nonlinear_arith)
                requires
                    self.nanos < 1_000_000_000,
                    self@ == (self.secs as nat) * 1_000_000_000 + (self.nanos as nat),
            ;
        }
        self.secs
    }

    /// The part of the span below one second, in nanoseconds.
    pub fn subsec_nanos(&self) -> (r: u32)
        ensures
            r == self@ % 1_000_000_000,
    {
        proof {
            use_type_invariant(self);
            assert(self@ % 1_000_000_000 == self.nanos) by (nonlinear_arith)
                requires
                    self.nanos < 1_000_000_000,
                    self@ == (self.secs as nat) * 1_000_000_000 + (self.nanos as nat),
            ;
        }
        self.nanos
    }

    /// The span in nanoseconds.
    pub fn as_nanos(&self) -> (r: u128)
        ensures
            r == self@,
            r <= Duration::max_nanos(),
    {
        proof {
            use_type_invariant(self);
            assert((self.secs as nat) * 1_000_000_000 <= (u64::MAX as nat) * 1_000_000_000)
                by (nonlinear_arith);
        }
        self.secs as u128 * 1_000_000_000u128 + self.nanos as u128
    }

    /// The span in whole microseconds, rounded down.
    pub fn as_micros(&self) -> (r: u128)
        ensures
            r == self@ / 1_000,
            r <= Duration::max_nanos() / 1_000,
    {
        let nanos: u128 = self.as_nanos();
        nanos / 1_000
    }

    /// The span in whole milliseconds, rounded down.
    pub fn as_millis(&self) -> (r: u128)
        ensures
            r == self@ / 1_000_000,
    {
        let nanos: u128 = self.as_nanos();
        nanos / 1_000_000
    }
}

} // verus!
