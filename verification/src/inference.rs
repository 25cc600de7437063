//! What follows from the power envelope: the cooling level, and the GPU clock
//! range of a tier.

use crate::fan_curve::FanCurvePreset;
use crate::gpu_clock::{GpuClockConstraints, GpuClockRange};
use crate::power::{PowerEnvelopeLimits, PowerEnvelopeTarget};
use crate::profile::{GpuClockFractions, ProfileThresholds, ONE, ZERO};
use crate::single::{quotient_lt, scale_nearest, Single};
use crate::single;
use vstd::arithmetic::power2::pow2;
use vstd::prelude::*;

verus! {

/// `a - b`, or zero where that is negative.
pub open spec fn monus(a: u32, b: u32) -> u32 {
    if a < b {
        0
    } else {
        (a - b) as u32
    }
}

/// The cooling level for a sustained limit, by where it lies in the range of
/// the hardware; balanced where the range is empty.
pub open spec fn tier_of(
    spl: u32,
    limits: PowerEnvelopeLimits,
    thresholds: ProfileThresholds,
) -> FanCurvePreset {
    let range = monus(limits.spl_max.0, limits.spl_min.0);
    let offset = monus(spl, limits.spl_min.0);
    if range == 0 {
        FanCurvePreset::Balanced
    } else if single::quotient_below(offset, range, thresholds.low_frac) {
        FanCurvePreset::Silent
    } else if single::quotient_below(offset, range, thresholds.high_frac) {
        FanCurvePreset::Balanced
    } else {
        FanCurvePreset::Aggressive
    }
}

/// The cooling level for a power envelope, by where its sustained limit lies in
/// the range of the hardware; balanced where the range is empty.
pub fn infer_fan_curve_from_spl(
    target: &PowerEnvelopeTarget,
    limits: &PowerEnvelopeLimits,
    thresholds: &ProfileThresholds,
) -> (r: FanCurvePreset)
    ensures
        r == tier_of(target.spl.0, *limits, *thresholds),
{
    let range: u32 = limits.spl_max.0.saturating_sub(limits.spl_min.0);
    if range == 0 {
        return FanCurvePreset::Balanced;
    }
    let offset: u32 = target.spl.0.saturating_sub(limits.spl_min.0);
    if quotient_lt(offset, range, thresholds.low_frac) {
        FanCurvePreset::Silent
    } else if quotient_lt(offset, range, thresholds.high_frac) {
        FanCurvePreset::Balanced
    } else {
        FanCurvePreset::Aggressive
    }
}

impl GpuClockFractions {
    /// The share of a tier.
    pub open spec fn of_tier(self, tier: FanCurvePreset) -> Single {
        match tier {
            FanCurvePreset::Silent => self.silent_max_frac,
            FanCurvePreset::Balanced => self.balanced_max_frac,
            FanCurvePreset::Aggressive => self.aggressive_max_frac,
        }
    }
}

/// How far above the lowest clock a tier may go.
pub open spec fn tier_headroom(
    tier: FanCurvePreset,
    constraints: GpuClockConstraints,
    fractions: GpuClockFractions,
) -> u32 {
    single::scaled_nearest(
        monus(constraints.range_max_mhz, constraints.range_min_mhz),
        fractions.of_tier(tier),
    )
}

/// Whether the highest clock of a tier can be counted.
pub open spec fn tier_countable(
    tier: FanCurvePreset,
    constraints: GpuClockConstraints,
    fractions: GpuClockFractions,
) -> bool {
    constraints.range_min_mhz + tier_headroom(tier, constraints, fractions) <= u32::MAX
}

/// The clock range of a tier: from the lowest clock of the device up to the
/// tier's share of the span, at least one step and at most to the device's
/// highest clock.
pub open spec fn tier_range(
    tier: FanCurvePreset,
    constraints: GpuClockConstraints,
    fractions: GpuClockFractions,
) -> GpuClockRange {
    let low = constraints.range_min_mhz;
    let high = constraints.range_max_mhz;
    let share = low + tier_headroom(tier, constraints, fractions);
    let raised = if share > low {
        share
    } else {
        low + 1
    };
    GpuClockRange {
        min_mhz: low,
        max_mhz: if raised < high {
            raised as u32
        } else {
            high
        },
    }
}

/// The clock range of a tier on a device.
pub fn gpu_clock_range_for_tier(
    tier: FanCurvePreset,
    constraints: &GpuClockConstraints,
    fractions: &GpuClockFractions,
) -> (r: GpuClockRange)
    requires
        tier_countable(tier, *constraints, *fractions),
    ensures
        r == tier_range(tier, *constraints, *fractions),
{
    let frac = match tier {
        FanCurvePreset::Silent => fractions.silent_max_frac,
        FanCurvePreset::Balanced => fractions.balanced_max_frac,
        FanCurvePreset::Aggressive => fractions.aggressive_max_frac,
    };
    let span: u32 = constraints.range_max_mhz.saturating_sub(constraints.range_min_mhz);
    let ceiling: u32 = constraints.range_min_mhz + scale_nearest(span, frac);
    let floor: u32 = constraints.range_min_mhz.saturating_add(1);
    let raised: u32 = if ceiling < floor {
        floor
    } else {
        ceiling
    };
    let max_mhz: u32 = if raised < constraints.range_max_mhz {
        raised
    } else {
        constraints.range_max_mhz
    };
    GpuClockRange { min_mhz: constraints.range_min_mhz, max_mhz }
}

/// The clock range of a tier on a device, where its highest clock can be
/// counted.
pub fn checked_gpu_clock_range_for_tier(
    tier: FanCurvePreset,
    constraints: &GpuClockConstraints,
    fractions: &GpuClockFractions,
) -> (r: Option<GpuClockRange>)
    ensures
        r == (if tier_countable(tier, *constraints, *fractions) {
            Some(tier_range(tier, *constraints, *fractions))
        } else {
            None
        }),
{
    let frac = match tier {
        FanCurvePreset::Silent => fractions.silent_max_frac,
        FanCurvePreset::Balanced => fractions.balanced_max_frac,
        FanCurvePreset::Aggressive => fractions.aggressive_max_frac,
    };
    let span: u32 = constraints.range_max_mhz.saturating_sub(constraints.range_min_mhz);
    if scale_nearest(span, frac) > u32::MAX - constraints.range_min_mhz {
        return None;
    }
    Some(gpu_clock_range_for_tier(tier, constraints, fractions))
}

/// On a device with a clock range at all, every tier gets a range that the
/// device accepts.
pub proof fn tier_range_is_accepted(
    tier: FanCurvePreset,
    constraints: GpuClockConstraints,
    fractions: GpuClockFractions,
)
    requires
        constraints.range_min_mhz < constraints.range_max_mhz,
    ensures
        tier_range(tier, constraints, fractions).defect(constraints) is None,
{
}

/// A tier with the larger share of the span gets at least as high a clock.
pub proof fn tier_ceiling_rises_with_share(
    lesser: FanCurvePreset,
    greater: FanCurvePreset,
    constraints: GpuClockConstraints,
    fractions: GpuClockFractions,
)
    requires
        !fractions.of_tier(lesser).nan(),
        !fractions.of_tier(greater).nan(),
        fractions.of_tier(lesser).value() <= fractions.of_tier(greater).value(),
    ensures
        tier_range(lesser, constraints, fractions).max_mhz <= tier_range(
            greater,
            constraints,
            fractions,
        ).max_mhz,
{
    single::scaling_is_monotone(
        monus(constraints.range_max_mhz, constraints.range_min_mhz),
        fractions.of_tier(lesser),
        fractions.of_tier(greater),
    );
}

/// Where the shares rise from tier to tier, so do the highest clocks.
pub proof fn tier_ceilings_are_in_order(
    constraints: GpuClockConstraints,
    fractions: GpuClockFractions,
)
    requires
        !fractions.silent_max_frac.nan(),
        !fractions.balanced_max_frac.nan(),
        !fractions.aggressive_max_frac.nan(),
        fractions.silent_max_frac.value() <= fractions.balanced_max_frac.value()
            <= fractions.aggressive_max_frac.value(),
    ensures
        tier_range(FanCurvePreset::Silent, constraints, fractions).max_mhz <= tier_range(
            FanCurvePreset::Balanced,
            constraints,
            fractions,
        ).max_mhz <= tier_range(FanCurvePreset::Aggressive, constraints, fractions).max_mhz,
{
    tier_ceiling_rises_with_share(
        FanCurvePreset::Silent,
        FanCurvePreset::Balanced,
        constraints,
        fractions,
    );
    tier_ceiling_rises_with_share(
        FanCurvePreset::Balanced,
        FanCurvePreset::Aggressive,
        constraints,
        fractions,
    );
}

/// A share of one reaches the device's highest clock, unless the span falls short
/// of itself as a single-precision number. No span of up to 24 bits does.
pub proof fn full_share_reaches_the_top(
    tier: FanCurvePreset,
    constraints: GpuClockConstraints,
    fractions: GpuClockFractions,
)
    requires
        fractions.of_tier(tier).equals(Single { bits: ONE }),
    ensures
        ({
            let span = monus(constraints.range_max_mhz, constraints.range_min_mhz);
            span <= 0x100_0000 || span <= single::as_single(span as nat) ==> tier_range(
                tier,
                constraints,
                fractions,
            ).max_mhz == constraints.range_max_mhz
        }),
{
    let span = monus(constraints.range_max_mhz, constraints.range_min_mhz);
    single::scaling_by_one(span, fractions.of_tier(tier));
    if span <= 0x100_0000 {
        single::small_numbers_are_exact(span as nat);
    }
}

/// A share of nothing leaves one step above the device's lowest clock.
pub proof fn empty_share_leaves_one_step(
    tier: FanCurvePreset,
    constraints: GpuClockConstraints,
    fractions: GpuClockFractions,
)
    requires
        constraints.range_min_mhz < constraints.range_max_mhz,
        fractions.of_tier(tier).equals(Single { bits: ZERO }),
    ensures
        tier_range(tier, constraints, fractions).max_mhz == constraints.range_min_mhz + 1,
{
    let zero = Single { bits: ZERO };
    assert(zero.significand() == 0);
    assert(zero.units() == 0) by (nonlinear_arith)
        requires
            zero.significand() == 0,
            zero.units() == zero.significand() * vstd::arithmetic::power2::pow2(zero.shift()),
    ;
    single::scaling_by_zero(
        monus(constraints.range_max_mhz, constraints.range_min_mhz),
        fractions.of_tier(tier),
    );
}

/// How hard a level cools.
pub open spec fn strength(level: FanCurvePreset) -> nat {
    match level {
        FanCurvePreset::Silent => 0,
        FanCurvePreset::Balanced => 1,
        FanCurvePreset::Aggressive => 2,
    }
}

/// More power never gets weaker cooling.
pub proof fn cooling_rises_with_power(
    low: u32,
    high: u32,
    limits: PowerEnvelopeLimits,
    thresholds: ProfileThresholds,
)
    requires
        low <= high,
    ensures
        strength(tier_of(low, limits, thresholds)) <= strength(tier_of(high, limits, thresholds)),
{
    let range = monus(limits.spl_max.0, limits.spl_min.0);
    let a = monus(low, limits.spl_min.0);
    let b = monus(high, limits.spl_min.0);
    if range > 0 {
        single::quotient_is_monotone(a as nat, b as nat, range as nat);
        let (x, y) = (
            single::quotient(a as nat, range as nat),
            single::quotient(b as nat, range as nat),
        );
        let unit = vstd::arithmetic::power2::pow2(93);
        assert(x * unit <= y * unit) by (nonlinear_arith)
            requires
                x <= y,
                unit >= 0,
        ;
    }
}

/// Where a sustained limit lies in the range of the hardware decides its tier: below
/// the lower threshold it is silent, from the upper one on aggressive, and balanced
/// between. (Within one part in 2^21 of a threshold, rounding may decide.)
pub proof fn tiers_are_shares_of_the_range(
    spl: u32,
    limits: PowerEnvelopeLimits,
    thresholds: ProfileThresholds,
)
    requires
        limits.spl_min.0 <= spl,
        limits.spl_min.0 < limits.spl_max.0,
        thresholds.low_frac.finite() && !thresholds.low_frac.negative(),
        thresholds.high_frac.finite() && !thresholds.high_frac.negative(),
        thresholds.low_frac.value() <= thresholds.high_frac.value(),
    ensures
        ({
            let tier = tier_of(spl, limits, thresholds);
            let above = (spl - limits.spl_min.0) * pow2(149);
            let range = limits.spl_max.0 - limits.spl_min.0;
            let low = thresholds.low_frac.value() * range * 0x20_0000;
            let high = thresholds.high_frac.value() * range * 0x20_0000;
            &&& above * 0x20_0001 < low ==> tier is Silent
            &&& above * 0x1f_ffff >= low && above * 0x20_0001 < high ==> tier is Balanced
            &&& above * 0x1f_ffff >= high ==> tier is Aggressive
        }),
{
    let offset = (spl - limits.spl_min.0) as u32;
    let range = (limits.spl_max.0 - limits.spl_min.0) as u32;
    single::quotients_are_held_against_the_share(offset, range, thresholds.low_frac);
    single::quotients_are_held_against_the_share(offset, range, thresholds.high_frac);
    let (a, b) = (thresholds.low_frac.value(), thresholds.high_frac.value());
    assert(a * range * 0x20_0000 <= b * range * 0x20_0000) by (nonlinear_arith)
        requires
            a <= b,
            range > 0,
    ;
}

/// The lowest sustained limit of the hardware is silent wherever the lower threshold
/// is above zero, the highest is aggressive wherever the upper one is at most one,
/// and hardware without a range is balanced.
pub proof fn ends_of_the_range_are_the_outer_tiers(
    limits: PowerEnvelopeLimits,
    thresholds: ProfileThresholds,
    spl: u32,
)
    requires
        !thresholds.low_frac.nan(),
        !thresholds.high_frac.nan(),
        thresholds.low_frac.value() <= thresholds.high_frac.value(),
    ensures
        limits.spl_min.0 < limits.spl_max.0 && thresholds.low_frac.value() > 0 ==> tier_of(
            limits.spl_min.0,
            limits,
            thresholds,
        ) is Silent,
        limits.spl_min.0 < limits.spl_max.0 && thresholds.high_frac.value() <= (Single {
            bits: ONE,
        }).value() ==> tier_of(limits.spl_max.0, limits, thresholds) is Aggressive,
        limits.spl_min.0 >= limits.spl_max.0 ==> tier_of(spl, limits, thresholds) is Balanced,
{
    if limits.spl_min.0 < limits.spl_max.0 {
        let range = (limits.spl_max.0 - limits.spl_min.0) as u32;
        single::quotient_of_nothing(range as nat);
        single::quotient_of_the_whole(range as nat);
        single::one_is_the_unit();
    }
}

/// The share of the span that is set for a tier is the one that the tier gets: its
/// highest clock lies that share above the lowest, to the nearest step, but at
/// least one step up and no higher than the device goes.
pub proof fn tiers_get_their_own_share(
    constraints: GpuClockConstraints,
    fractions: GpuClockFractions,
)
    requires
        constraints.range_min_mhz < constraints.range_max_mhz,
        fractions.silent_max_frac.finite() && !fractions.silent_max_frac.negative(),
        fractions.balanced_max_frac.finite() && !fractions.balanced_max_frac.negative(),
        fractions.aggressive_max_frac.finite() && !fractions.aggressive_max_frac.negative(),
    ensures
        gets_share(
            tier_range(FanCurvePreset::Silent, constraints, fractions),
            constraints,
            fractions.silent_max_frac,
        ),
        gets_share(
            tier_range(FanCurvePreset::Balanced, constraints, fractions),
            constraints,
            fractions.balanced_max_frac,
        ),
        gets_share(
            tier_range(FanCurvePreset::Aggressive, constraints, fractions),
            constraints,
            fractions.aggressive_max_frac,
        ),
{
    lemma_gets_share(FanCurvePreset::Silent, constraints, fractions);
    lemma_gets_share(FanCurvePreset::Balanced, constraints, fractions);
    lemma_gets_share(FanCurvePreset::Aggressive, constraints, fractions);
}

proof fn lemma_gets_share(
    tier: FanCurvePreset,
    constraints: GpuClockConstraints,
    fractions: GpuClockFractions,
)
    requires
        constraints.range_min_mhz < constraints.range_max_mhz,
        fractions.of_tier(tier).finite() && !fractions.of_tier(tier).negative(),
    ensures
        gets_share(
            tier_range(tier, constraints, fractions),
            constraints,
            fractions.of_tier(tier),
        ),
{
    let span = (constraints.range_max_mhz - constraints.range_min_mhz) as u32;
    single::scaling_to_nearest_multiplies(span, fractions.of_tier(tier));
    vstd::arithmetic::power2::lemma_pow2_pos(149);
    let unit = pow2(149) as int;
    let h = tier_headroom(tier, constraints, fractions) as int;
    let up = tier_range(tier, constraints, fractions).max_mhz - constraints.range_min_mhz;
    assert(up <= h ==> (2 * up - 1) * unit * 0x40_0000 <= (2 * h - 1) * unit * 0x40_0000)
        by (nonlinear_arith)
        requires
            unit > 0,
    ;
    assert(up >= h ==> (2 * up + 1) * unit * 0x40_0000 >= (2 * h + 1) * unit * 0x40_0000)
        by (nonlinear_arith)
        requires
            unit > 0,
    ;
}

/// Whether a range starts at the lowest clock of the device and ends `share` of the
/// span above it, to the nearest step, up to one part in 2^22: at least one step up
/// and no higher than the device goes.
pub open spec fn gets_share(
    range: GpuClockRange,
    constraints: GpuClockConstraints,
    share: Single,
) -> bool {
    let span = constraints.range_max_mhz - constraints.range_min_mhz;
    let up = range.max_mhz - constraints.range_min_mhz;
    &&& range.min_mhz == constraints.range_min_mhz
    &&& 1 <= up <= span
    &&& up > 1 ==> (2 * up - 1) * pow2(149) * 0x40_0000 <= 2 * (span * share.value()) * 0x40_0001
    &&& up < span ==> (2 * up + 1) * pow2(149) * 0x40_0000 > 2 * (span * share.value()) * 0x3f_ffff
}

} // verus!
