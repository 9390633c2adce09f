//! Control of the pacing and padding rates.
use crate::double::{
    law_fraction_is_nearest, law_integers_are_exact, law_product_is_integer, nearest, one, units,
    FRACTIONS,
};
use crate::units::{law_times_follows_the_factor, max_rate, min_rate, rate_of, times, Bitrate};
use vstd::arithmetic::power2::{lemma2_to64_rest, lemma_pow2_strictly_increases, pow2};
use vstd::prelude::*;

verus! {

/// How far above the media rate the pacer may send: the bits of 1.1.
pub const PACING_FACTOR: u64 = 0x3FF1_9999_9999_999A;

/// The rates to pace and to pad with.
#[derive(Debug, Clone, Copy, PartialEq, Eq, Structural)]
pub struct PacingResult {
    /// The rate up to which padding fills the link.
    pub padding_rate: Bitrate,
    /// The rate up to which packets leave the pacer.
    pub pacing_rate: Bitrate,
}

/// The rate to pad to while media is active.
///
/// Padding is there to keep NAT bindings and retransmission state alive. Finding more capacity is
/// the job of periodic probes, so the target does not depend on the bandwidth estimate.
#[verifier::allow_in_spec]
pub fn padding_target() -> Bitrate
    returns
        rate_of(50_000),
{
    Bitrate::bps(50_000)
}

/// The padding rate: none in overuse and without media, else the target as far as the estimate
/// allows it.
pub open spec fn padding_rate(current: Bitrate, estimate: Bitrate, is_overuse: bool) -> Bitrate {
    if is_overuse || current == Bitrate::zero() {
        Bitrate::zero()
    } else {
        min_rate(padding_target(), estimate)
    }
}

/// The pacing rate: the pacing factor on top of the allocation or the estimate, whichever is
/// higher, and no less than the padding rate.
pub open spec fn pacing_rate(current: Bitrate, estimate: Bitrate, is_overuse: bool) -> Bitrate {
    max_rate(
        times(max_rate(current, estimate), PACING_FACTOR),
        padding_rate(current, estimate, is_overuse),
    )
}

/// Controls the pacing and padding rates.
pub struct PacerControl {}

impl PacerControl {
    /// A control. It has no state.
    pub fn new() -> (control: PacerControl)
        ensures
            control == (PacerControl {  }),
    {
        PacerControl {  }
    }

    /// Calculates the pacing and padding rates.
    ///
    /// `current_bitrate` is the rate that is allocated to media. Padding is sent only where media
    /// is allocated, and never while the network is congested. The estimate only caps the padding
    /// rate. An allocation above the estimate raises the pacing rate, so that media does not queue
    /// behind it.
    pub fn calculate(
        &self,
        current_bitrate: Bitrate,
        estimate: Bitrate,
        is_overuse: bool,
    ) -> (result: PacingResult)
        ensures
            result.padding_rate == padding_rate(current_bitrate, estimate, is_overuse),
            result.pacing_rate == pacing_rate(current_bitrate, estimate, is_overuse),
    {
        // Padding in overuse would only excite a network that is known to struggle.
        let padding_rate = if is_overuse || current_bitrate.is_zero() {
            Bitrate::zero()
        } else {
            padding_target().min(estimate)
        };
        let min_pacing_rate = current_bitrate.max(estimate).times(PACING_FACTOR);
        let pacing_rate = min_pacing_rate.max(padding_rate);
        PacingResult { padding_rate, pacing_rate }
    }
}

/// Padding never exceeds its target nor the estimate.
pub proof fn law_padding_is_capped(current: Bitrate, estimate: Bitrate, is_overuse: bool)
    ensures
        padding_rate(current, estimate, is_overuse).bits <= padding_target().bits,
        padding_rate(current, estimate, is_overuse).bits <= estimate.bits,
{
}

/// There is no padding in overuse, nor without media.
pub proof fn law_no_padding_in_overuse_or_without_media(
    current: Bitrate,
    estimate: Bitrate,
    is_overuse: bool,
)
    ensures
        is_overuse ==> padding_rate(current, estimate, is_overuse) == Bitrate::zero(),
        current == Bitrate::zero() ==> padding_rate(current, estimate, is_overuse)
            == Bitrate::zero(),
{
}

/// Padding does not scale with the estimate: all estimates that reach the padding target give the
/// same padding rate.
pub proof fn law_padding_does_not_scale_with_estimate(
    current: Bitrate,
    low: Bitrate,
    high: Bitrate,
    is_overuse: bool,
)
    requires
        padding_target().bits <= low.bits,
        padding_target().bits <= high.bits,
    ensures
        padding_rate(current, low, is_overuse) == padding_rate(current, high, is_overuse),
{
}

/// The pacing factor is the number nearest to eleven tenths.
pub proof fn law_pacing_factor_is_eleven_tenths()
    ensures
        nearest(11 * one(), 10) == PACING_FACTOR,
        units(PACING_FACTOR as nat) >= one(),
{
    law_fraction_is_nearest(PACING_FACTOR as nat, 0x11_9999_9999_999A, 1_022, 11, 10);
}

/// A rate of whole bits per second, eleven tenths of which are whole as well, is paced at exactly
/// that, where the power of two below it is close enough.
pub proof fn law_whole_rates_pace_exactly(bps: nat, paced: nat, e: nat)
    requires
        10 * paced == 11 * bps,
        e <= 52,
        pow2(e) < paced < pow2(e + 1),
        4 * bps < 5 * pow2(e),
    ensures
        times(rate_of(bps), PACING_FACTOR) == rate_of(paced),
{
    lemma2_to64_rest();
    if e < 52 {
        lemma_pow2_strictly_increases(e, 52);
    }
    law_integers_are_exact(bps);
    assert(pow2((1_074 - 1_022) as nat) == FRACTIONS);
    assert(pow2((e + 1_022 - 1_022) as nat) == pow2(e));
    assert(10 * (paced * FRACTIONS) == 11 * (bps * FRACTIONS));
    law_product_is_integer(bps, paced, e, PACING_FACTOR as nat, 0x11_9999_9999_999A, 1_022);
}

/// The pacing rate has room for the media allocation, for the estimate and for the padding, and
/// padding never raises it.
pub proof fn law_pacing_leaves_room(current: Bitrate, estimate: Bitrate, is_overuse: bool)
    ensures
        pacing_rate(current, estimate, is_overuse).bits >= current.bits,
        pacing_rate(current, estimate, is_overuse).bits >= estimate.bits,
        pacing_rate(current, estimate, is_overuse).bits >= padding_rate(
            current,
            estimate,
            is_overuse,
        ).bits,
        pacing_rate(current, estimate, is_overuse) == times(
            max_rate(current, estimate),
            PACING_FACTOR,
        ),
{
    law_padding_is_capped(current, estimate, is_overuse);
    law_pacing_factor_is_eleven_tenths();
    let rate = max_rate(current, estimate);
    law_times_follows_the_factor(rate, rate, PACING_FACTOR);
}

/// A higher allocation or a higher estimate never lowers the pacing rate.
pub proof fn law_pacing_is_monotone(
    current: Bitrate,
    higher_current: Bitrate,
    estimate: Bitrate,
    higher_estimate: Bitrate,
    is_overuse: bool,
    is_overuse_later: bool,
)
    requires
        current.bits <= higher_current.bits,
        estimate.bits <= higher_estimate.bits,
    ensures
        pacing_rate(current, estimate, is_overuse).bits <= pacing_rate(
            higher_current,
            higher_estimate,
            is_overuse_later,
        ).bits,
{
    law_pacing_leaves_room(current, estimate, is_overuse);
    law_pacing_leaves_room(higher_current, higher_estimate, is_overuse_later);
    law_times_follows_the_factor(
        max_rate(current, estimate),
        max_rate(higher_current, higher_estimate),
        PACING_FACTOR,
    );
}

/// With media and without overuse there is padding, however much media is allocated: the target
/// where the estimate reaches it, and the estimate otherwise.
pub proof fn law_padding_is_on_with_media(current: Bitrate, other: Bitrate, estimate: Bitrate)
    requires
        current.bits != 0,
        other.bits != 0,
    ensures
        estimate.bits >= padding_target().bits ==> padding_rate(current, estimate, false)
            == padding_target(),
        estimate.bits < padding_target().bits ==> padding_rate(current, estimate, false)
            == estimate,
        padding_rate(current, estimate, false) == padding_rate(other, estimate, false),
{
}

/// Padding is off in overuse and without media, by its bits.
pub proof fn law_padding_is_off_by_its_bits(current: Bitrate, estimate: Bitrate)
    ensures
        padding_rate(current, estimate, true).bits == 0,
        padding_rate(Bitrate { bits: 0 }, estimate, false).bits == 0,
{
}

/// The padding target is 50 thousand bits per second.
pub proof fn law_padding_target_is_fifty_thousand()
    ensures
        units(padding_target().bits as nat) == 50_000 * one(),
{
    law_integers_are_exact(50_000);
}

/// Pacing goes by the allocation where that is the higher of the two, and by the estimate where
/// that is. Overuse does not lower it.
pub proof fn law_pacing_goes_by_the_higher_rate(
    current: Bitrate,
    estimate: Bitrate,
    is_overuse: bool,
)
    ensures
        current.bits >= estimate.bits ==> pacing_rate(current, estimate, is_overuse) == times(
            current,
            PACING_FACTOR,
        ),
        current.bits <= estimate.bits ==> pacing_rate(current, estimate, is_overuse) == times(
            estimate,
            PACING_FACTOR,
        ),
        pacing_rate(current, estimate, is_overuse) == pacing_rate(current, estimate, !is_overuse),
        pacing_rate(current, estimate, is_overuse) == pacing_rate(estimate, current, is_overuse),
{
    law_pacing_leaves_room(current, estimate, is_overuse);
    law_pacing_leaves_room(current, estimate, !is_overuse);
    law_pacing_leaves_room(estimate, current, is_overuse);
}

} // verus!
