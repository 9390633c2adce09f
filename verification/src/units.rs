//! Quantities: bit rates, data sizes, points in time and spans of time.
use crate::double::{
    distance, from_integer, integer_of, law_integers_are_exact, law_integers_compare,
    law_no_number_is_nearer_to_an_integer, law_no_product_is_nearer,
    law_product_follows_the_factor, one, product, product_of, units, FRACTIONS, INFINITY,
};
use vstd::prelude::*;
use vstd::std_specs::ops::AddSpec;

verus! {

/// A bit rate: a double precision number of bits per second that is not negative, by its bits.
///
/// Rates compare as their bits do. Those of whole bits per second compare as the integers do (see
/// [`law_integer_rates_compare`]).
#[derive(Debug, Clone, Copy, PartialEq, Eq, Structural, PartialOrd)]
pub struct Bitrate {
    pub bits: u64,
}

/// The smaller of two rates.
pub open spec fn min_rate(a: Bitrate, b: Bitrate) -> Bitrate {
    if a.bits <= b.bits {
        a
    } else {
        b
    }
}

/// The larger of two rates.
pub open spec fn max_rate(a: Bitrate, b: Bitrate) -> Bitrate {
    if a.bits <= b.bits {
        b
    } else {
        a
    }
}

/// The rate nearest to an integer number of bits per second.
pub open spec fn rate_of(bps: nat) -> Bitrate {
    Bitrate { bits: integer_of(bps) as u64 }
}

/// A rate times a finite positive factor, given by its bits. The product is rounded to the nearest
/// rate, and infinity stays as it is.
pub open spec fn times(rate: Bitrate, factor: u64) -> Bitrate {
    if rate.bits < INFINITY {
        Bitrate { bits: product_of(rate.bits as nat, factor as nat) as u64 }
    } else {
        rate
    }
}

/// A factor of one at least never lowers a rate, and one of one at most never raises it. The
/// larger of two rates has the larger product.
pub proof fn law_times_follows_the_factor(low: Bitrate, high: Bitrate, factor: u64)
    requires
        low.bits <= high.bits,
    ensures
        units(factor as nat) >= one() ==> times(low, factor).bits >= low.bits,
        units(factor as nat) <= one() ==> times(low, factor).bits <= low.bits,
        times(low, factor).bits <= times(high, factor).bits,
{
    if low.bits < INFINITY {
        law_product_follows_the_factor(low.bits as nat, low.bits as nat, factor as nat);
        if high.bits < INFINITY {
            law_product_follows_the_factor(low.bits as nat, high.bits as nat, factor as nat);
        }
    }
}

/// Every integer number of bits per second up to two to the power of 53 is a rate of its own.
pub proof fn law_integer_rates_are_exact(bps: nat)
    requires
        bps <= 2 * FRACTIONS,
    ensures
        units(rate_of(bps).bits as nat) == bps * one(),
        rate_of(bps).is_rate(),
{
    law_integers_are_exact(bps);
}

/// Rates of whole bits per second compare as the integers do, up to two to the power of 53.
pub broadcast proof fn law_integer_rates_compare(a: nat, b: nat)
    requires
        a <= 2 * FRACTIONS,
        b <= 2 * FRACTIONS,
    ensures
        #![trigger rate_of(a), rate_of(b)]
        rate_of(a).bits < rate_of(b).bits <==> a < b,
        rate_of(a) == rate_of(b) <==> a == b,
{
    law_integers_compare(a, b);
    law_integers_are_exact(a);
    law_integers_are_exact(b);
}

impl Bitrate {
    /// Whether the bits are those of a rate. Those above infinity are not.
    pub open spec fn is_rate(self) -> bool {
        self.bits <= INFINITY
    }

    /// No data at all.
    #[verifier::allow_in_spec]
    pub fn zero() -> Bitrate
        returns
            (Bitrate { bits: 0 }),
    {
        Bitrate { bits: 0 }
    }

    /// The rate with the given bits, if they are those of a rate.
    pub fn from_bits(bits: u64) -> (rate: Option<Bitrate>)
        ensures
            rate == if bits <= INFINITY {
                Some(Bitrate { bits })
            } else {
                None::<Bitrate>
            },
    {
        if bits <= INFINITY {
            Some(Bitrate { bits })
        } else {
            None
        }
    }

    /// A rate in bits per second.
    pub fn bps(bps: u64) -> (rate: Bitrate)
        ensures
            rate == rate_of(bps as nat),
            rate.is_rate(),
    {
        Bitrate { bits: from_integer(bps as u128) }
    }

    /// A rate in thousands of bits per second.
    pub fn kbps(kbps: u64) -> (rate: Bitrate)
        ensures
            rate == rate_of(kbps as nat * 1_000),
            rate.is_rate(),
    {
        Bitrate { bits: from_integer(kbps as u128 * 1_000) }
    }

    /// A rate in millions of bits per second.
    pub fn mbps(mbps: u64) -> (rate: Bitrate)
        ensures
            rate == rate_of(mbps as nat * 1_000_000),
            rate.is_rate(),
    {
        Bitrate { bits: from_integer(mbps as u128 * 1_000_000) }
    }

    /// Whether no data at all flows.
    pub fn is_zero(&self) -> (zero: bool)
        ensures
            zero == (*self == Bitrate::zero()),
    {
        self.bits == 0
    }

    /// The smaller of two rates.
    pub fn min(self, other: Bitrate) -> (rate: Bitrate)
        ensures
            rate == min_rate(self, other),
    {
        if self.bits <= other.bits {
            self
        } else {
            other
        }
    }

    /// The larger of two rates.
    pub fn max(self, other: Bitrate) -> (rate: Bitrate)
        ensures
            rate == max_rate(self, other),
    {
        if self.bits <= other.bits {
            other
        } else {
            self
        }
    }

    /// This rate times a finite positive factor, given by its bits.
    pub fn times(self, factor: u64) -> (rate: Bitrate)
        requires
            0 < factor < INFINITY,
        ensures
            rate == times(self, factor),
            self.is_rate() ==> rate.is_rate(),
    {
        if self.bits < INFINITY {
            Bitrate { bits: product(self.bits, factor) }
        } else {
            self
        }
    }
}

/// An amount of data, in bytes.
#[derive(Debug, Clone, Copy, PartialEq, Eq, Structural, PartialOrd)]
pub struct DataSize {
    pub bytes: u64,
}

impl DataSize {
    /// An amount in bytes.
    pub fn bytes(bytes: u64) -> (size: DataSize)
        ensures
            size.bytes == bytes,
    {
        DataSize { bytes }
    }
}

/// A point in time, counted in nanoseconds from an origin that the application picks.
#[derive(Debug, Clone, Copy, PartialEq, Eq, Structural, PartialOrd)]
pub struct Instant {
    pub nanos: u128,
}

/// A span of time in nanoseconds.
#[derive(Debug, Clone, Copy, PartialEq, Eq, Structural, PartialOrd)]
pub struct Duration {
    pub nanos: u128,
}

impl Duration {
    /// A span of milliseconds.
    pub fn from_millis(millis: u64) -> (span: Duration)
        ensures
            span.nanos == millis * 1_000_000,
    {
        Duration { nanos: millis as u128 * 1_000_000 }
    }

    /// A span of seconds.
    pub fn from_secs(secs: u64) -> (span: Duration)
        ensures
            span.nanos == secs * 1_000_000_000,
    {
        Duration { nanos: secs as u128 * 1_000_000_000 }
    }
}

/// The time from `earlier` to `later`, which is zero where `later` comes first.
pub open spec fn time_between(earlier: Instant, later: Instant) -> Duration {
    Duration {
        nanos: if earlier.nanos <= later.nanos {
            (later.nanos - earlier.nanos) as u128
        } else {
            0
        },
    }
}

impl Instant {
    /// The point in time `nanos` nanoseconds after the origin.
    pub fn from_nanos(nanos: u128) -> (at: Instant)
        ensures
            at.nanos == nanos,
    {
        Instant { nanos }
    }

    /// The time that has passed since `earlier`, which is zero where `earlier` is still to come.
    pub fn duration_since(&self, earlier: Instant) -> (span: Duration)
        ensures
            span == time_between(earlier, *self),
    {
        if earlier.nanos <= self.nanos {
            Duration { nanos: self.nanos - earlier.nanos }
        } else {
            Duration { nanos: 0 }
        }
    }
}

impl std::ops::Add<Duration> for Instant {
    type Output = Instant;

    fn add(self, span: Duration) -> (later: Instant) {
        Instant { nanos: self.nanos + span.nanos }
    }
}

impl vstd::std_specs::ops::AddSpecImpl<Duration> for Instant {
    open spec fn obeys_add_spec() -> bool {
        true
    }

    open spec fn add_req(self, span: Duration) -> bool {
        self.nanos + span.nanos <= u128::MAX
    }

    open spec fn add_spec(self, span: Duration) -> Instant {
        Instant { nanos: (self.nanos + span.nanos) as u128 }
    }
}

/// The smaller and the larger of two rates are the two rates, on the right side of each other.
pub proof fn law_smaller_and_larger(a: Bitrate, b: Bitrate)
    ensures
        min_rate(a, b).bits <= a.bits,
        min_rate(a, b).bits <= b.bits,
        min_rate(a, b) == a || min_rate(a, b) == b,
        max_rate(a, b).bits >= a.bits,
        max_rate(a, b).bits >= b.bits,
        max_rate(a, b) == a || max_rate(a, b) == b,
{
}

/// No rate is nearer to the exact product than what multiplying gives, and none with even bits is
/// as near where those of the product are odd. What is too large for a number is infinite, and so
/// is every product of infinity.
pub proof fn law_no_rate_is_nearer_to_the_product(rate: Bitrate, factor: u64, other: u64)
    ensures
        ({
            let bits = times(rate, factor).bits;
            let exact = units(rate.bits as nat) * units(factor as nat);
            let off = distance(units(bits as nat) * one(), exact);
            let other_off = distance(units(other as nat) * one(), exact);
            &&& rate.bits >= INFINITY ==> bits == rate.bits
            &&& rate.bits < INFINITY ==> {
                &&& bits <= INFINITY
                &&& bits == INFINITY <==> 2 * exact >= (units((INFINITY - 1) as nat) + units(
                    INFINITY as nat,
                )) * one()
                &&& bits < INFINITY ==> off <= other_off
                &&& bits < INFINITY && other != bits && off == other_off ==> bits % 2 == 0
            }
        }),
{
    law_no_product_is_nearer(rate.bits as nat, factor as nat, other as nat);
}

/// No rate is nearer to an integer number of bits per second than the one that stands for it.
pub proof fn law_no_rate_is_nearer_to_an_integer(bps: nat, other: u64)
    ensures
        ({
            let bits = rate_of(bps).bits;
            let off = distance(units(bits as nat), bps * one());
            let other_off = distance(units(other as nat), bps * one());
            &&& bits <= INFINITY
            &&& bits < INFINITY ==> off <= other_off
            &&& bits < INFINITY && other != bits && off == other_off ==> bits % 2 == 0
            &&& bits == INFINITY <==> 2 * (bps * one()) >= units((INFINITY - 1) as nat) + units(
                INFINITY as nat,
            )
        }),
{
    law_no_number_is_nearer_to_an_integer(bps, other as nat);
}

/// The time between two points leads from the one to the other, and is zero against the clock.
pub proof fn law_time_between_leads_there(earlier: Instant, later: Instant)
    ensures
        earlier.nanos <= later.nanos ==> earlier.nanos + time_between(earlier, later).nanos
            == later.nanos,
        later.nanos <= earlier.nanos ==> time_between(earlier, later).nanos == 0,
{
}

/// A span added to a point in time leads to the point from which it leads back.
pub proof fn law_added_span_is_the_time_between(at: Instant, span: Duration)
    ensures
        Instant::obeys_add_spec(),
        at.add_req(span) <==> at.nanos + span.nanos <= u128::MAX,
        at.nanos + span.nanos <= u128::MAX ==> at.add_spec(span).nanos == at.nanos + span.nanos,
        at.nanos + span.nanos <= u128::MAX ==> time_between(at, at.add_spec(span)) == span,
{
}

} // verus!
