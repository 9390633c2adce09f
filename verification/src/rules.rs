//! Rules of the bandwidth estimator that need no state.
use crate::double::{
    law_fraction_is_nearest, law_integers_are_exact, law_product_is_integer, nearest, one, units,
    FRACTIONS,
};
use crate::units::{
    law_times_follows_the_factor, max_rate, min_rate, rate_of, time_between, times, Bitrate,
    Duration, Instant,
};
use vstd::arithmetic::power2::{lemma2_to64_rest, lemma_pow2_unfold, pow2};
use vstd::prelude::*;

verus! {

/// How much of the acknowledged throughput a probe result has to reach: the bits of 0.85.
pub const PROBE_FLOOR: u64 = 0x3FEB_3333_3333_3333;

/// How long the startup phase lasts, counted from the first report.
#[verifier::allow_in_spec]
pub fn startup_phase() -> Duration
    returns
        (Duration { nanos: 2_000_000_000 }),
{
    Duration::from_secs(2)
}

/// The rate to believe a probe with.
///
/// What has already been acknowledged is proof of throughput, so a probe that measured less is
/// lifted to that, but not past the delay based estimate.
pub open spec fn limited_probe(
    probe: Bitrate,
    acknowledged: Option<Bitrate>,
    delay_estimate: Option<Bitrate>,
) -> Bitrate {
    match (acknowledged, delay_estimate) {
        (Some(acknowledged), Some(delay_estimate)) => max_rate(
            probe,
            min_rate(delay_estimate, times(acknowledged, PROBE_FLOOR)),
        ),
        _ => probe,
    }
}

/// The rate to believe a probe with.
pub fn limit_probe_bitrate(
    probe_bitrate: Bitrate,
    acknowledged_bitrate: Option<Bitrate>,
    delay_estimate: Option<Bitrate>,
) -> (rate: Bitrate)
    ensures
        rate == limited_probe(probe_bitrate, acknowledged_bitrate, delay_estimate),
{
    let acknowledged_bitrate = match acknowledged_bitrate {
        Some(rate) => rate,
        None => return probe_bitrate,
    };
    let delay_estimate = match delay_estimate {
        Some(rate) => rate,
        None => return probe_bitrate,
    };
    let lower_bound = delay_estimate.min(acknowledged_bitrate.times(PROBE_FLOOR));
    probe_bitrate.max(lower_bound)
}

/// The share of the acknowledged throughput is the number nearest to 85 hundredths.
pub proof fn law_probe_floor_is_85_hundredths()
    ensures
        nearest(85 * one(), 100) == PROBE_FLOOR,
        units(PROBE_FLOOR as nat) <= one(),
{
    law_fraction_is_nearest(PROBE_FLOOR as nat, 0x1B_3333_3333_3333, 1_021, 85, 100);
}

/// For a rate of whole bits per second, 85 hundredths of which are whole as well, the floor is
/// exactly that, except where it is a power of two.
pub proof fn law_whole_rates_have_an_exact_floor(bps: nat, floor: nat, e: nat)
    requires
        100 * floor == 85 * bps,
        bps <= 2 * FRACTIONS,
        e <= 52,
        pow2(e) < floor < pow2(e + 1),
    ensures
        times(rate_of(bps), PROBE_FLOOR) == rate_of(floor),
{
    lemma2_to64_rest();
    lemma_pow2_unfold(e + 1);
    law_integers_are_exact(bps);
    assert(pow2((1_074 - 1_021) as nat) == 2 * FRACTIONS);
    assert(pow2((e + 1_022 - 1_021) as nat) == 2 * pow2(e));
    assert(100 * (floor * (2 * FRACTIONS)) == 85 * (bps * (2 * FRACTIONS)));
    law_product_is_integer(bps, floor, e, PROBE_FLOOR as nat, 0x1B_3333_3333_3333, 1_021);
}

/// Limiting never lowers a probe result, never lifts it past the delay based estimate, and
/// changes nothing that is not below the proven throughput.
pub proof fn law_probe_is_lifted_only_to_proven_throughput(
    probe: Bitrate,
    acknowledged: Bitrate,
    delay_estimate: Bitrate,
)
    ensures
        limited_probe(probe, Some(acknowledged), Some(delay_estimate)).bits
            >= probe.bits,
        limited_probe(probe, Some(acknowledged), Some(delay_estimate)).bits <= max_rate(
            probe,
            delay_estimate,
        ).bits,
        limited_probe(probe, Some(acknowledged), Some(delay_estimate)).bits <= max_rate(
            probe,
            acknowledged,
        ).bits,
        probe.bits >= times(acknowledged, PROBE_FLOOR).bits
            || probe.bits >= delay_estimate.bits ==> limited_probe(
            probe,
            Some(acknowledged),
            Some(delay_estimate),
        ) == probe,
{
    law_probe_floor_is_85_hundredths();
    law_times_follows_the_factor(acknowledged, acknowledged, PROBE_FLOOR);
}

/// Without an acknowledged rate, or without a delay based estimate, a probe stands as measured.
pub proof fn law_probe_stands_without_evidence(
    probe: Bitrate,
    acknowledged: Option<Bitrate>,
    delay_estimate: Option<Bitrate>,
)
    ensures
        acknowledged is None || delay_estimate is None ==> limited_probe(
            probe,
            acknowledged,
            delay_estimate,
        ) == probe,
{
}

/// Whether the estimator is in its startup phase: a first report has come in, no longer ago than
/// the phase lasts.
pub open spec fn is_startup(started_at: Option<Instant>, now: Instant) -> bool {
    match started_at {
        Some(start) => time_between(start, now).nanos <= startup_phase().nanos,
        None => false,
    }
}

/// Whether the estimator is in its startup phase.
pub fn in_startup_phase(started_at: Option<Instant>, now: Instant) -> (startup: bool)
    ensures
        startup == is_startup(started_at, now),
{
    match started_at {
        Some(start) => now.duration_since(start).nanos <= startup_phase().nanos,
        None => false,
    }
}

/// The startup phase, once over, stays over.
pub proof fn law_startup_ends_once(started_at: Option<Instant>, now: Instant, later: Instant)
    requires
        now.nanos <= later.nanos,
        !is_startup(started_at, now),
    ensures
        !is_startup(started_at, later),
{
}

/// Whether no more than one packet in a thousand got lost.
pub open spec fn is_negligible_loss(lost: nat, sent: nat) -> bool {
    lost * 1000 <= sent
}

/// Whether no more than one packet in a thousand got lost.
pub fn loss_is_negligible(lost: usize, sent: usize) -> (negligible: bool)
    ensures
        negligible == is_negligible_loss(lost as nat, sent as nat),
{
    lost as u128 * 1000 <= sent as u128
}

/// A limited probe is never below the proven throughput: 85 hundredths of the acknowledged rate,
/// or the delay based estimate where that is lower. It is no other rate than that or what was
/// measured, whichever is higher.
pub proof fn law_probe_reaches_proven_throughput(
    probe: Bitrate,
    acknowledged: Bitrate,
    delay_estimate: Bitrate,
    proven: Bitrate,
)
    requires
        proven == delay_estimate || proven == times(acknowledged, PROBE_FLOOR),
        proven.bits <= delay_estimate.bits,
        proven.bits <= times(acknowledged, PROBE_FLOOR).bits,
    ensures
        limited_probe(probe, Some(acknowledged), Some(delay_estimate)).bits >= proven.bits,
        limited_probe(probe, Some(acknowledged), Some(delay_estimate)).bits >= min_rate(
            delay_estimate,
            times(acknowledged, PROBE_FLOOR),
        ).bits,
        probe.bits <= proven.bits ==> limited_probe(
            probe,
            Some(acknowledged),
            Some(delay_estimate),
        ) == proven,
        probe.bits >= proven.bits ==> limited_probe(
            probe,
            Some(acknowledged),
            Some(delay_estimate),
        ) == probe,
{
}

/// A higher measurement, a higher acknowledged rate or a higher delay based estimate never lowers
/// the rate to believe a probe with.
pub proof fn law_limited_probe_is_monotone(
    probe: Bitrate,
    higher_probe: Bitrate,
    acknowledged: Bitrate,
    higher_acknowledged: Bitrate,
    delay_estimate: Bitrate,
    higher_delay_estimate: Bitrate,
)
    requires
        probe.bits <= higher_probe.bits,
        acknowledged.bits <= higher_acknowledged.bits,
        delay_estimate.bits <= higher_delay_estimate.bits,
    ensures
        limited_probe(probe, Some(acknowledged), Some(delay_estimate)).bits <= limited_probe(
            higher_probe,
            Some(higher_acknowledged),
            Some(higher_delay_estimate),
        ).bits,
{
    law_times_follows_the_factor(acknowledged, higher_acknowledged, PROBE_FLOOR);
}

/// The startup phase starts with the first report and is over two seconds after it.
pub proof fn law_startup_lasts_two_seconds(start: Instant, now: Instant)
    ensures
        is_startup(Some(start), now) <==> now.nanos <= start.nanos + 2_000_000_000,
        !is_startup(None, now),
{
}

/// One lost packet in a thousand is negligible, and one in fewer is not. More packets that arrive
/// never make a loss count.
pub proof fn law_one_in_a_thousand_is_negligible(lost: nat, sent: nat, more: nat)
    ensures
        is_negligible_loss(0, sent),
        is_negligible_loss(lost, 1_000 * lost),
        lost > 0 ==> !is_negligible_loss(lost, (1_000 * lost - 1) as nat),
        sent <= more && is_negligible_loss(lost, sent) ==> is_negligible_loss(lost, more),
{
}

} // verus!
