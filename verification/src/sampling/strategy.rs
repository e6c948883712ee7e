//! Sampling levels and the interval arithmetic of the adaptive strategy.

use vstd::prelude::*;

verus! {

/// Nanoseconds in a second.
pub open spec fn nanos_per_sec() -> nat {
    1_000_000_000
}

/// One more than the largest length, in nanoseconds, that a `Span` can hold
/// (`u64::MAX` seconds and 999_999_999 nanoseconds).
pub open spec fn span_limit() -> nat {
    (u64::MAX as nat + 1) * nanos_per_sec()
}

/// A length of time: whole seconds and the nanoseconds past them, as `std::time::Duration` holds it.
#[derive(Debug, Clone, Copy)]
pub struct Span {
    secs: u64,
    nanos: u32,
}

impl View for Span {
    type V = nat;

    /// The total length in nanoseconds.
    closed spec fn view(&self) -> nat {
        self.secs as nat * nanos_per_sec() + self.nanos as nat
    }
}

impl Span {
    #[verifier::type_invariant]
    closed spec fn well_formed(self) -> bool {
        self.nanos < 1_000_000_000
    }

    /// A span of whole seconds.
    pub fn from_secs(secs: u64) -> (r: Span)
        ensures
            r@ == secs as nat * nanos_per_sec(),
    {
        Span { secs, nanos: 0 }
    }

    /// A span of `secs` seconds and `nanos` nanoseconds.
    pub fn from_parts(secs: u64, nanos: u32) -> (r: Span)
        requires
            nanos < 1_000_000_000,
        ensures
            r@ == secs as nat * nanos_per_sec() + nanos as nat,
    {
        Span { secs, nanos }
    }

    /// The whole seconds of the span.
    pub fn as_secs(&self) -> (r: u64)
        ensures
            r as nat == self@ / nanos_per_sec(),
    {
        proof {
            use_type_invariant(*self);
            vstd::arithmetic::div_mod::lemma_fundamental_div_mod_converse(
                self@ as int,
                nanos_per_sec() as int,
                self.secs as int,
                self.nanos as int,
            );
        }
        self.secs
    }

    /// The nanoseconds past the whole seconds.
    pub fn subsec_nanos(&self) -> (r: u32)
        ensures
            r as nat == self@ % nanos_per_sec(),
            r < 1_000_000_000,
    {
        proof {
            use_type_invariant(*self);
            vstd::arithmetic::div_mod::lemma_fundamental_div_mod_converse(
                self@ as int,
                nanos_per_sec() as int,
                self.secs as int,
                self.nanos as int,
            );
        }
        self.nanos
    }

    /// Half the span, rounded down to the nanosecond (as `Duration / 2`).
    pub fn half(&self) -> (r: Span)
        ensures
            r@ == self@ / 2,
    {
        proof {
            use_type_invariant(*self);
        }
        let secs = self.secs / 2;
        let carry: u32 = (self.secs % 2) as u32;
        let nanos = self.nanos / 2 + carry * 500_000_000;
        proof {
            let s = self.secs as int;
            let n = self.nanos as int;
            assert(s == 2 * (s / 2) + s % 2);
            assert(n == 2 * (n / 2) + n % 2);
            assert(self@ == s * 1_000_000_000 + n);
            assert(s * 1_000_000_000 + n == 2 * ((s / 2) * 1_000_000_000 + (s % 2) * 500_000_000 + n / 2) + n % 2)
                by (nonlinear_arith)
                requires
                    s == 2 * (s / 2) + s % 2,
                    n == 2 * (n / 2) + n % 2,
            ;
            let h = (s / 2) * 1_000_000_000 + (s % 2) * 500_000_000 + n / 2;
            vstd::arithmetic::div_mod::lemma_fundamental_div_mod_converse(
                self@ as int,
                2,
                h,
                n % 2,
            );
            assert(secs as nat * nanos_per_sec() == (s / 2) * 1_000_000_000);
        }
        Span { secs, nanos }
    }

    /// Twice the span (as `Duration * 2`).
    pub fn double(&self) -> (r: Span)
        requires
            self@ * 2 < span_limit(),
        ensures
            r@ == self@ * 2,
    {
        proof {
            use_type_invariant(*self);
        }
        let twice_nanos: u64 = self.nanos as u64 * 2;
        let extra: u64 = twice_nanos / 1_000_000_000;
        let nanos: u32 = (twice_nanos % 1_000_000_000) as u32;
        proof {
            let s = self.secs as int;
            let n = self.nanos as int;
            assert(extra <= 1);
            assert(twice_nanos == 1_000_000_000 * extra + nanos);
            assert(self@ * 2 == (2 * s + extra) * 1_000_000_000 + nanos) by (nonlinear_arith)
                requires
                    self@ == s * 1_000_000_000 + n,
                    2 * n == 1_000_000_000 * extra + nanos,
            ;
            assert(2 * s + extra <= u64::MAX) by (nonlinear_arith)
                requires
                    (2 * s + extra) * 1_000_000_000 + nanos < (u64::MAX as int + 1) * 1_000_000_000,
                    nanos >= 0,
            ;
        }
        let secs = self.secs * 2 + extra;
        Span { secs, nanos }
    }
}

/// How densely a stretch of the timeline is sampled.
#[derive(Debug, Clone, Copy, PartialEq, Eq, Structural)]
pub enum SamplingLevel {
    /// High volatility: dense sampling (1-5 minutes).
    High,
    /// Medium volatility: normal sampling (15-30 minutes).
    Medium,
    /// Low volatility: sparse sampling (1-6 hours).
    Low,
}

impl SamplingLevel {
    /// The level's position, densest first (High = 0, Medium = 1, Low = 2).
    pub open spec fn rank(self) -> int {
        match self {
            SamplingLevel::High => 0,
            SamplingLevel::Medium => 1,
            SamplingLevel::Low => 2,
        }
    }

    /// The level's position as an integer, densest first.
    pub fn ordinal(&self) -> (r: i32)
        ensures
            r == self.rank(),
    {
        match self {
            SamplingLevel::High => 0,
            SamplingLevel::Medium => 1,
            SamplingLevel::Low => 2,
        }
    }

    /// Whether this level samples more densely than `other`.
    pub fn is_denser_than(&self, other: &SamplingLevel) -> (r: bool)
        ensures
            r == (self.rank() < other.rank()),
    {
        self.ordinal() < other.ordinal()
    }

    /// Whether this level samples more sparsely than `other`.
    pub fn is_sparser_than(&self, other: &SamplingLevel) -> (r: bool)
        ensures
            r == (self.rank() > other.rank()),
    {
        self.ordinal() > other.ordinal()
    }
}

/// Between two levels exactly one holds: the first is denser, the first is sparser,
/// or they are the same level. So a strategy never asks to raise and lower the
/// sampling rate at once.
pub proof fn law_level_trichotomy(a: SamplingLevel, b: SamplingLevel)
    ensures
        (a.rank() < b.rank()) || (a.rank() > b.rank()) || a == b,
        !(a.rank() < b.rank() && a.rank() > b.rank()),
        a == b ==> !(a.rank() < b.rank()) && !(a.rank() > b.rank()),
{
}

/// The interval lengths of an adaptive strategy: the base interval and the
/// bounds that sampling intervals are held to.
#[derive(Debug, Clone, Copy)]
pub struct StrategyIntervals {
    pub base_interval: Span,
    pub min_interval: Span,
    pub max_interval: Span,
}

impl StrategyIntervals {
    /// The recommended interval for a level, in nanoseconds: the minimum interval
    /// for High, half the base interval for Medium, twice the base interval for Low.
    pub open spec fn interval_for(self, level: SamplingLevel) -> nat {
        match level {
            SamplingLevel::High => self.min_interval@,
            SamplingLevel::Medium => self.base_interval@ / 2,
            SamplingLevel::Low => self.base_interval@ * 2,
        }
    }

    /// Twice the base interval is still a span.
    pub open spec fn base_doubles(self) -> bool {
        self.base_interval@ * 2 < span_limit()
    }

    /// The recommended interval for a sampling level.
    pub fn get_interval_for_level(&self, level: SamplingLevel) -> (r: Span)
        requires
            level == SamplingLevel::Low ==> self.base_doubles(),
        ensures
            r@ == self.interval_for(level),
    {
        match level {
            SamplingLevel::High => self.min_interval,
            SamplingLevel::Medium => self.base_interval.half(),
            SamplingLevel::Low => self.base_interval.double(),
        }
    }
}

impl Default for StrategyIntervals {
    /// One hour base, one minute minimum, one day maximum.
    fn default() -> (r: StrategyIntervals)
        ensures
            r.base_interval@ == 3600 * nanos_per_sec(),
            r.min_interval@ == 60 * nanos_per_sec(),
            r.max_interval@ == 86400 * nanos_per_sec(),
    {
        StrategyIntervals {
            base_interval: Span::from_secs(3600),
            min_interval: Span::from_secs(60),
            max_interval: Span::from_secs(86400),
        }
    }
}

/// Denser levels sample at shorter intervals: when the minimum interval is at most half
/// the base interval, High's interval is at most Medium's, and both are below Low's
/// whenever the base interval is not zero.
pub proof fn law_denser_levels_sample_more_often(iv: StrategyIntervals, a: SamplingLevel, b: SamplingLevel)
    requires
        iv.min_interval@ <= iv.base_interval@ / 2,
        a.rank() < b.rank(),
    ensures
        iv.interval_for(a) <= iv.interval_for(b),
        iv.base_interval@ > 0 && b == SamplingLevel::Low ==> iv.interval_for(a) < iv.interval_for(b),
{
}

} // verus!
