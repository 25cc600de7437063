//! What each request is for, in terms of what was asked, stated over `next`.

use crate::effect::Effect;
use crate::fan_curve::{FanCurve, FanCurvePreset, FanCurveSelection};
use crate::gpu_clock::{GpuClockRange, GpuClockSelection};
use crate::inference;
use crate::power::{PowerEnvelopeLimits, PowerEnvelopeTarget};
use crate::profile::{ProfileName, RuntimeConfig, TdpPreset};
use crate::reducer;
use crate::single;
use crate::single::Single;
use crate::state::{DcSnapshot, ProfileState};
use crate::transition::Transition;
use vstd::arithmetic::power2::pow2;
use vstd::prelude::*;

verus! {

// ---------------------------------------------------------------------------
// Power
// ---------------------------------------------------------------------------

/// Whether `rail` is a boost rail for `wanted`: what is wanted, as far as the
/// hardware allows, but no lower than the rail `under` it or the lowest that the
/// hardware takes.
pub open spec fn serves(rail: int, wanted: int, under: int, min: int, max: int) -> bool {
    &&& rail >= under && rail >= min
    &&& rail < max ==> rail >= wanted
    &&& rail > under && rail > min ==> rail <= wanted && rail <= max
}

/// A sustained limit that is accepted is the one that was asked for, and lies in
/// the range of the hardware. Each boost rail is that limit times the rail's own
/// factor, as far as the hardware and the rail below allow.
#[verifier::rlimit(40)]
#[verifier::spinoff_prover]
pub proof fn sustained_limit_is_the_one_asked_for(
    state: ProfileState,
    watts: u32,
    limits: PowerEnvelopeLimits,
    config: RuntimeConfig,
)
    requires
        !(state.is_ac_connected && state.ac_max_performance),
    ensures
        reducer::next(state, Transition::SetSpl(watts), limits, config) matches Ok(o) ==> {
            let target = o.state.power_target;
            let spl = watts * 1000;
            &&& target.spl.0 == spl
            &&& limits.spl_min.0 <= spl <= limits.spl_max.0
            &&& target.fppt is Some
            &&& serves(
                target.sppt.0 as int,
                single::scaled_down(spl as u32, config.sppt_factor) as int,
                spl,
                limits.sppt_min.0 as int,
                limits.sppt_max.0 as int,
            )
            &&& serves(
                (target.fppt->0).0 as int,
                single::scaled_down(spl as u32, config.fppt_factor) as int,
                target.sppt.0 as int,
                limits.fppt_min.0 as int,
                limits.fppt_max.0 as int,
            )
        },
{
}

/// Whether `rail` is `spl` times the value of `factor`, rounded down, up to one
/// part in 2^22.
pub open spec fn is_multiple(rail: int, spl: int, factor: Single) -> bool {
    &&& rail * pow2(149) * 0x40_0000 <= spl * factor.value() * 0x40_0001
    &&& (rail + 1) * pow2(149) * 0x40_0000 > spl * factor.value() * 0x3f_ffff
}

/// A boost rail that neither the hardware nor the rail below holds back is the
/// sustained limit times the value of its own factor.
#[verifier::rlimit(40)]
#[verifier::spinoff_prover]
pub proof fn free_rails_are_multiples_of_the_sustained_limit(
    state: ProfileState,
    watts: u32,
    limits: PowerEnvelopeLimits,
    config: RuntimeConfig,
)
    requires
        !(state.is_ac_connected && state.ac_max_performance),
        config.sppt_factor.finite() && !config.sppt_factor.negative(),
        config.fppt_factor.finite() && !config.fppt_factor.negative(),
    ensures
        reducer::next(state, Transition::SetSpl(watts), limits, config) matches Ok(o) ==> {
            let target = o.state.power_target;
            let (spl, sppt, fppt) = (target.spl.0, target.sppt.0, (target.fppt->0).0);
            &&& spl < sppt && limits.sppt_min.0 < sppt < limits.sppt_max.0 ==> is_multiple(
                sppt as int,
                watts * 1000,
                config.sppt_factor,
            )
            &&& sppt < fppt && limits.fppt_min.0 < fppt < limits.fppt_max.0 ==> is_multiple(
                fppt as int,
                watts * 1000,
                config.fppt_factor,
            )
        },
{
    sustained_limit_is_the_one_asked_for(state, watts, limits, config);
    if let Ok(o) = reducer::next(state, Transition::SetSpl(watts), limits, config) {
        single::scaling_down_multiplies((watts * 1000) as u32, config.sppt_factor);
        single::scaling_down_multiplies((watts * 1000) as u32, config.fppt_factor);
    }
}

/// A larger factor never lowers its rail, and leaves the sustained limit alone.
#[verifier::rlimit(40)]
#[verifier::spinoff_prover]
pub proof fn rails_rise_with_their_factors(
    state: ProfileState,
    watts: u32,
    limits: PowerEnvelopeLimits,
    low: RuntimeConfig,
    high: RuntimeConfig,
)
    requires
        !(state.is_ac_connected && state.ac_max_performance),
        single::scaled_down((watts * 1000) as u32, low.sppt_factor) <= single::scaled_down(
            (watts * 1000) as u32,
            high.sppt_factor,
        ),
        single::scaled_down((watts * 1000) as u32, low.fppt_factor) <= single::scaled_down(
            (watts * 1000) as u32,
            high.fppt_factor,
        ),
    ensures
        reducer::next(state, Transition::SetSpl(watts), limits, low) matches Ok(a) ==> (
        reducer::next(state, Transition::SetSpl(watts), limits, high) matches Ok(b) ==> {
            &&& a.state.power_target.spl == b.state.power_target.spl
            &&& a.state.power_target.sppt.0 <= b.state.power_target.sppt.0
            &&& (a.state.power_target.fppt->0).0 <= (b.state.power_target.fppt->0).0
        }),
{
    sustained_limit_is_the_one_asked_for(state, watts, limits, low);
    sustained_limit_is_the_one_asked_for(state, watts, limits, high);
}

/// The eco preset is the lowest sustained limit of the hardware, in whole watts.
#[verifier::rlimit(40)]
#[verifier::spinoff_prover]
pub proof fn eco_is_the_lowest(
    state: ProfileState,
    limits: PowerEnvelopeLimits,
    config: RuntimeConfig,
)
    requires
        !(state.is_ac_connected && state.ac_max_performance),
    ensures
        reducer::next(state, Transition::SetPreset(TdpPreset::Eco), limits, config) matches Ok(o)
            ==> o.state.power_target.spl.0 == limits.spl_min.0 / 1000 * 1000,
{
}

/// The max preset is the highest sustained limit of the hardware, in whole watts.
#[verifier::rlimit(40)]
#[verifier::spinoff_prover]
pub proof fn max_is_the_highest(
    state: ProfileState,
    limits: PowerEnvelopeLimits,
    config: RuntimeConfig,
)
    requires
        !(state.is_ac_connected && state.ac_max_performance),
    ensures
        reducer::next(state, Transition::SetPreset(TdpPreset::Max), limits, config) matches Ok(o)
            ==> o.state.power_target.spl.0 == limits.spl_max.0 / 1000 * 1000,
{
}

/// The balanced preset lies halfway up the range of the hardware, in whole watts.
#[verifier::rlimit(40)]
#[verifier::spinoff_prover]
pub proof fn balanced_is_halfway(
    state: ProfileState,
    limits: PowerEnvelopeLimits,
    config: RuntimeConfig,
)
    requires
        !(state.is_ac_connected && state.ac_max_performance),
    ensures
        reducer::next(state, Transition::SetPreset(TdpPreset::Balanced), limits, config) matches Ok(o)
            ==> ({
            let watts = o.state.power_target.spl.0 / 1000;
            let ends = limits.spl_min.0 / 1000 + limits.spl_max.0 / 1000;
            &&& o.state.power_target.spl.0 == watts * 1000
            &&& 2 * watts <= ends <= 2 * watts + 1
        }),
{
}

/// A preset is a request for its sustained limit: rails, fans and GPU clock come out
/// as they would had that been asked for.
#[verifier::rlimit(40)]
#[verifier::spinoff_prover]
pub proof fn presets_are_requests_for_their_limit(
    state: ProfileState,
    preset: TdpPreset,
    watts: u32,
    limits: PowerEnvelopeLimits,
    config: RuntimeConfig,
)
    requires
        match preset {
            TdpPreset::Eco => watts == limits.spl_min.0 / 1000,
            TdpPreset::Balanced => 2 * watts <= limits.spl_min.0 / 1000 + limits.spl_max.0 / 1000
                <= 2 * watts + 1,
            TdpPreset::Max => watts == limits.spl_max.0 / 1000,
        },
    ensures
        reducer::next(state, Transition::SetPreset(preset), limits, config) == reducer::next(
            state,
            Transition::SetSpl(watts),
            limits,
            config,
        ),
{
    assert(reducer::preset_watts(preset, limits) == watts);
}

/// The presets are in order: eco asks for no more than balanced, balanced for no
/// more than max, and eco for less than max on hardware with more than a watt to
/// choose from.
#[verifier::rlimit(40)]
#[verifier::spinoff_prover]
pub proof fn presets_are_in_order(
    state: ProfileState,
    limits: PowerEnvelopeLimits,
    config: RuntimeConfig,
)
    requires
        !(state.is_ac_connected && state.ac_max_performance),
        limits.spl_min.0 <= limits.spl_max.0,
    ensures
        reducer::next(state, Transition::SetPreset(TdpPreset::Eco), limits, config) matches Ok(eco)
            ==> (reducer::next(state, Transition::SetPreset(TdpPreset::Balanced), limits, config)
            matches Ok(balanced) ==> (reducer::next(
            state,
            Transition::SetPreset(TdpPreset::Max),
            limits,
            config,
        ) matches Ok(max) ==> {
            let (a, b, c) = (
                eco.state.power_target.spl.0,
                balanced.state.power_target.spl.0,
                max.state.power_target.spl.0,
            );
            &&& a <= b <= c
            &&& limits.spl_min.0 + 1000 <= limits.spl_max.0 ==> a < c
            &&& limits.spl_min.0 + 2000 <= limits.spl_max.0 ==> a < b < c
        })),
{
    eco_is_the_lowest(state, limits, config);
    balanced_is_halfway(state, limits, config);
    max_is_the_highest(state, limits, config);
}

/// On hardware whose ranges rise from rail to rail and whose sustained range ends
/// on whole watts, every preset is accepted.
#[verifier::rlimit(40)]
#[verifier::spinoff_prover]
pub proof fn presets_are_accepted(
    state: ProfileState,
    preset: TdpPreset,
    limits: PowerEnvelopeLimits,
    config: RuntimeConfig,
)
    requires
        limits.spl_min.0 <= limits.spl_max.0 <= limits.sppt_max.0 <= limits.fppt_max.0,
        limits.sppt_min.0 <= limits.sppt_max.0,
        limits.fppt_min.0 <= limits.fppt_max.0,
        limits.spl_min.0 % 1000 == 0,
    ensures
        reducer::next(state, Transition::SetPreset(preset), limits, config) is Ok,
{
}

/// An envelope of one's own is accepted where its rails do not fall and each lies
/// in the range of the hardware, and only there. It is then in force as it is.
#[verifier::rlimit(40)]
#[verifier::spinoff_prover]
pub proof fn envelopes_are_taken_as_they_are(
    state: ProfileState,
    target: PowerEnvelopeTarget,
    limits: PowerEnvelopeLimits,
    config: RuntimeConfig,
)
    requires
        !(state.is_ac_connected && state.ac_max_performance),
    ensures
        reducer::next(state, Transition::SetEnvelope(target), limits, config) is Ok <==> {
            &&& target.spl.0 <= target.sppt.0
            &&& limits.spl_min.0 <= target.spl.0 <= limits.spl_max.0
            &&& limits.sppt_min.0 <= target.sppt.0 <= limits.sppt_max.0
            &&& target.fppt matches Some(fppt) ==> target.sppt.0 <= fppt.0 && limits.fppt_min.0
                <= fppt.0 <= limits.fppt_max.0
        },
        reducer::next(state, Transition::SetEnvelope(target), limits, config) matches Ok(o)
            ==> o.state.power_target == target,
{
}

// ---------------------------------------------------------------------------
// What follows the power
// ---------------------------------------------------------------------------

/// Whether a request moves the power envelope alone.
pub open spec fn asks_for_power(transition: Transition) -> bool {
    transition is SetSpl || transition is SetPreset || transition is SetEnvelope
}

/// When a request moves the envelope, the fans and the GPU clock go to the tier of
/// the new sustained limit where they follow it, and stay where they are
/// otherwise.
#[verifier::rlimit(40)]
#[verifier::spinoff_prover]
pub proof fn followers_go_to_the_tier_of_the_envelope(
    state: ProfileState,
    transition: Transition,
    limits: PowerEnvelopeLimits,
    config: RuntimeConfig,
)
    requires
        !(state.is_ac_connected && state.ac_max_performance),
        asks_for_power(transition),
    ensures
        reducer::next(state, transition, limits, config) matches Ok(o) ==> {
            let tier = inference::tier_of(
                o.state.power_target.spl.0,
                limits,
                config.profile_thresholds,
            );
            &&& o.state.fan_follows_tdp == state.fan_follows_tdp
            &&& o.state.gpu_follows_tdp == state.gpu_follows_tdp
            &&& o.state.active_fan_curve == (if state.fan_follows_tdp && o.state.power_target
                != state.power_target {
                Some(FanCurveSelection::Preset(tier))
            } else {
                state.active_fan_curve
            })
            &&& o.state.active_gpu_clock == (if state.gpu_follows_tdp && o.state.power_target
                != state.power_target {
                Some(GpuClockSelection::Preset(tier))
            } else {
                state.active_gpu_clock
            })
        },
{
}

/// To start following is to go to the tier of the envelope in force at once, with
/// that lever alone.
#[verifier::rlimit(40)]
#[verifier::spinoff_prover]
pub proof fn starting_to_follow_goes_to_the_tier(
    state: ProfileState,
    limits: PowerEnvelopeLimits,
    config: RuntimeConfig,
)
    requires
        !(state.is_ac_connected && state.ac_max_performance),
    ensures
        reducer::next(state, Transition::EnableGpuAutoFollow, limits, config) matches Ok(o) && {
            let tier = inference::tier_of(
                state.power_target.spl.0,
                limits,
                config.profile_thresholds,
            );
            let clock = GpuClockSelection::Preset(tier);
            &&& o.state.gpu_follows_tdp
            &&& !state.gpu_follows_tdp ==> o.state == (ProfileState {
                gpu_follows_tdp: true,
                active_gpu_clock: Some(clock),
                ..state
            }) && o.effects.contains(Effect::ApplyGpuClockRange(clock))
            &&& state.gpu_follows_tdp ==> o.state == state && o.effects.len() == 0
        },
        reducer::next(state, Transition::EnableFanAuto, limits, config) matches Ok(o) && {
            let tier = inference::tier_of(
                state.power_target.spl.0,
                limits,
                config.profile_thresholds,
            );
            let curve = FanCurveSelection::Preset(tier);
            &&& o.state.fan_follows_tdp
            &&& !state.fan_follows_tdp ==> o.state == (ProfileState {
                fan_follows_tdp: true,
                active_fan_curve: Some(curve),
                ..state
            }) && o.effects.contains(Effect::ApplyFanCurve(curve))
            &&& state.fan_follows_tdp ==> o.state == state && o.effects.len() == 0
        },
{
    let tier = inference::tier_of(state.power_target.spl.0, limits, config.profile_thresholds);
    if !state.gpu_follows_tdp {
        let o = reducer::next(state, Transition::EnableGpuAutoFollow, limits, config)->Ok_0;
        assert(o.effects[0] == Effect::ApplyGpuClockRange(GpuClockSelection::Preset(tier)));
    }
    if !state.fan_follows_tdp {
        let o = reducer::next(state, Transition::EnableFanAuto, limits, config)->Ok_0;
        assert(o.effects[0] == Effect::ApplyFanCurve(FanCurveSelection::Preset(tier)));
    }
}

/// The clock that following gives rises with the power: more sustained power never
/// gets a lower tier of the GPU clock or weaker cooling.
#[verifier::rlimit(40)]
#[verifier::spinoff_prover]
pub proof fn followers_rise_with_power(
    state: ProfileState,
    low: PowerEnvelopeTarget,
    high: PowerEnvelopeTarget,
    limits: PowerEnvelopeLimits,
    config: RuntimeConfig,
)
    requires
        !(state.is_ac_connected && state.ac_max_performance),
        state.fan_follows_tdp,
        state.gpu_follows_tdp,
        state.power_target != low,
        state.power_target != high,
        low.spl.0 <= high.spl.0,
    ensures
        reducer::next(state, Transition::SetEnvelope(low), limits, config) matches Ok(a) ==> (
        reducer::next(state, Transition::SetEnvelope(high), limits, config) matches Ok(b) ==> {
            &&& a.state.active_gpu_clock matches Some(GpuClockSelection::Preset(x))
                && b.state.active_gpu_clock matches Some(GpuClockSelection::Preset(y))
                && inference::strength(x) <= inference::strength(y)
            &&& a.state.active_fan_curve matches Some(FanCurveSelection::Preset(x))
                && b.state.active_fan_curve matches Some(FanCurveSelection::Preset(y))
                && inference::strength(x) <= inference::strength(y)
        }),
{
    inference::cooling_rises_with_power(low.spl.0, high.spl.0, limits, config.profile_thresholds);
}

// ---------------------------------------------------------------------------
// The other levers
// ---------------------------------------------------------------------------

/// A cooling level is in force as it was asked for, is told to the hardware, and moves
/// nothing else. The fans no longer follow the envelope.
#[verifier::rlimit(40)]
#[verifier::spinoff_prover]
pub proof fn cooling_level_is_the_one_asked_for(
    state: ProfileState,
    level: FanCurvePreset,
    limits: PowerEnvelopeLimits,
    config: RuntimeConfig,
)
    requires
        !(state.is_ac_connected && state.ac_max_performance),
    ensures
        reducer::next(state, Transition::SetCoolingLevel(level), limits, config) matches Ok(o) && (o.state == ProfileState {
            active_fan_curve: Some(FanCurveSelection::Preset(level)),
            fan_follows_tdp: false,
            ..state
        }) && o.effects.contains(Effect::ApplyFanCurve(FanCurveSelection::Preset(level))),
{
    let o = reducer::next(state, Transition::SetCoolingLevel(level), limits, config)->Ok_0;
    assert(o.effects[0] == Effect::ApplyFanCurve(FanCurveSelection::Preset(level)));
}

/// Curves of one's own are in force, each on its fan, are told to the hardware, and
/// move nothing else. The fans no longer follow the envelope.
#[verifier::rlimit(40)]
#[verifier::spinoff_prover]
pub proof fn curves_are_the_ones_asked_for(
    state: ProfileState,
    cpu: FanCurve,
    gpu: FanCurve,
    limits: PowerEnvelopeLimits,
    config: RuntimeConfig,
)
    requires
        !(state.is_ac_connected && state.ac_max_performance),
    ensures
        reducer::next(state, Transition::SetCustomFanCurve { cpu, gpu }, limits, config) matches Ok(o) && (o.state == ProfileState {
            active_fan_curve: Some(FanCurveSelection::Custom { cpu, gpu }),
            fan_follows_tdp: false,
            ..state
        }) && o.effects.contains(Effect::ApplyFanCurve(FanCurveSelection::Custom { cpu, gpu })),
{
    let o = reducer::next(state, Transition::SetCustomFanCurve { cpu, gpu }, limits, config)->Ok_0;
    assert(o.effects[0] == Effect::ApplyFanCurve(FanCurveSelection::Custom { cpu, gpu }));
}

/// A clock range is in force as it was asked for, is told to the hardware, and moves
/// nothing else. The GPU clock no longer follows the envelope.
#[verifier::rlimit(40)]
#[verifier::spinoff_prover]
pub proof fn clock_range_is_the_one_asked_for(
    state: ProfileState,
    min_mhz: u32,
    max_mhz: u32,
    limits: PowerEnvelopeLimits,
    config: RuntimeConfig,
)
    requires
        !(state.is_ac_connected && state.ac_max_performance),
    ensures
        reducer::next(state, Transition::SetGpuClockRange { min_mhz, max_mhz }, limits, config) matches Ok(o) && (o.state == ProfileState {
            active_gpu_clock: Some(GpuClockSelection::Custom(GpuClockRange { min_mhz, max_mhz })),
            gpu_follows_tdp: false,
            ..state
        }) && o.effects.contains(Effect::ApplyGpuClockRange(GpuClockSelection::Custom(GpuClockRange { min_mhz, max_mhz }))),
{
    let o = reducer::next(state, Transition::SetGpuClockRange { min_mhz, max_mhz }, limits, config)->Ok_0;
    assert(o.effects[0] == Effect::ApplyGpuClockRange(GpuClockSelection::Custom(GpuClockRange { min_mhz, max_mhz })));
}

/// A platform profile is in force as it was asked for, is told to the hardware unless
/// it was in force already, and moves nothing else.
#[verifier::rlimit(40)]
#[verifier::spinoff_prover]
pub proof fn profile_is_the_one_asked_for(
    state: ProfileState,
    profile: ProfileName,
    limits: PowerEnvelopeLimits,
    config: RuntimeConfig,
)
    requires
        !(state.is_ac_connected && state.ac_max_performance),
    ensures
        reducer::next(state, Transition::SetProfile(profile), limits, config) matches Ok(o) && (o.state.active_profile.same(profile) && o.state == ProfileState {
            active_profile: o.state.active_profile,
            ..state
        }) && (!state.active_profile.same(profile) ==> o.effects.contains(Effect::ApplyPlatformProfile(profile))),
{
    let o = reducer::next(state, Transition::SetProfile(profile), limits, config)->Ok_0;
    if !state.active_profile.same(profile) {
        assert(o.effects[0] == Effect::ApplyPlatformProfile(profile));
    }
}

/// A charge limit is in force as it was asked for, on AC too, is told to the hardware
/// unless it was in force already, and moves nothing else.
#[verifier::rlimit(40)]
#[verifier::spinoff_prover]
pub proof fn charge_limit_is_the_one_asked_for(
    state: ProfileState,
    threshold: u8,
    limits: PowerEnvelopeLimits,
    config: RuntimeConfig,
)
    ensures
        reducer::next(state, Transition::ChargeThresholdChanged(threshold), limits, config) matches Ok(o) && (o.state == ProfileState {
            charge_end_threshold: threshold,
            ..state
        }) && (state.charge_end_threshold != threshold ==> o.effects.contains(Effect::ApplyChargeThreshold(threshold))),
{
    let o = reducer::next(state, Transition::ChargeThresholdChanged(threshold), limits, config)->Ok_0;
    if state.charge_end_threshold != threshold {
        assert(o.effects[0] == Effect::ApplyChargeThreshold(threshold));
    }
}

/// A request for power changes nothing but the envelope and what follows it.
#[verifier::rlimit(40)]
#[verifier::spinoff_prover]
pub proof fn power_requests_move_nothing_else(
    state: ProfileState,
    transition: Transition,
    limits: PowerEnvelopeLimits,
    config: RuntimeConfig,
)
    requires
        asks_for_power(transition),
    ensures
        reducer::next(state, transition, limits, config) matches Ok(o) ==> o.state == (
        ProfileState {
            power_target: o.state.power_target,
            active_fan_curve: o.state.active_fan_curve,
            active_gpu_clock: o.state.active_gpu_clock,
            ..state
        }),
{
}

/// Whether a request is one for power, for cooling, for the GPU clock, for the
/// platform profile, or for the defaults.
pub open spec fn asks_for_a_lever(transition: Transition) -> bool {
    match transition {
        Transition::SetPreset(_) => true,
        Transition::SetSpl(_) => true,
        Transition::SetEnvelope(_) => true,
        Transition::SetProfile(_) => true,
        Transition::SetCoolingLevel(_) => true,
        Transition::SetCustomFanCurve { .. } => true,
        Transition::EnableFanAuto => true,
        Transition::ResetFanCurve => true,
        Transition::SetGpuClockRange { .. } => true,
        Transition::EnableGpuAutoFollow => true,
        Transition::ResetGpuClocks => true,
        Transition::RestoreDefaults => true,
        _ => false,
    }
}

/// On AC with the lock on, a request for any lever changes nothing and asks for
/// nothing; the charge limit and the lock itself can still be changed.
#[verifier::rlimit(40)]
#[verifier::spinoff_prover]
pub proof fn the_lock_holds_every_lever(
    state: ProfileState,
    transition: Transition,
    threshold: u8,
    limits: PowerEnvelopeLimits,
    config: RuntimeConfig,
)
    requires
        state.is_ac_connected,
        state.ac_max_performance,
    ensures
        asks_for_a_lever(transition) ==> (reducer::next(state, transition, limits, config) matches Ok(
            o,
        ) && o.state == state && o.effects.len() == 0),
        reducer::next(state, Transition::ChargeThresholdChanged(threshold), limits, config)
            matches Ok(o) && o.state == (ProfileState { charge_end_threshold: threshold, ..state }),
        reducer::next(state, Transition::SetAcMaxPerformance(false), limits, config) matches Ok(o)
            && !o.state.ac_max_performance,
{
}

// ---------------------------------------------------------------------------
// AC
// ---------------------------------------------------------------------------

/// Whether a state runs at maximum performance: the highest sustained limit of the
/// hardware, the performance profile, the strongest cooling, and the GPU clock at
/// its highest tier where it was held at all in `before`.
pub open spec fn at_maximum(
    before: ProfileState,
    after: ProfileState,
    limits: PowerEnvelopeLimits,
) -> bool {
    &&& after.power_target.spl == limits.spl_max
    &&& after.active_profile is Performance
    &&& after.active_fan_curve == Some(FanCurveSelection::Preset(FanCurvePreset::Aggressive))
    &&& !after.fan_follows_tdp
    &&& before.active_gpu_clock is None ==> after.active_gpu_clock is None && after.gpu_follows_tdp
        == before.gpu_follows_tdp
    &&& before.active_gpu_clock is Some ==> after.active_gpu_clock == Some(
        GpuClockSelection::Preset(FanCurvePreset::Aggressive),
    ) && !after.gpu_follows_tdp
    &&& after.charge_end_threshold == before.charge_end_threshold
}

/// With the lock on, plugging in, turning the lock on while plugged in, and waking
/// up while plugged in all lead to maximum performance.
#[verifier::rlimit(40)]
#[verifier::spinoff_prover]
pub proof fn ac_means_maximum_performance(
    state: ProfileState,
    limits: PowerEnvelopeLimits,
    config: RuntimeConfig,
)
    ensures
        !state.is_ac_connected && state.ac_max_performance ==> (reducer::next(
            state,
            Transition::AcPowerChanged(true),
            limits,
            config,
        ) matches Ok(o) && o.state.is_ac_connected && o.state.ac_max_performance && at_maximum(
            state,
            o.state,
            limits,
        )),
        state.is_ac_connected && !state.ac_max_performance ==> (reducer::next(
            state,
            Transition::SetAcMaxPerformance(true),
            limits,
            config,
        ) matches Ok(o) && o.state.is_ac_connected && o.state.ac_max_performance && at_maximum(
            state,
            o.state,
            limits,
        )),
        state.is_ac_connected && state.ac_max_performance ==> (reducer::next(
            state,
            Transition::SystemResumed,
            limits,
            config,
        ) matches Ok(o) && o.state.is_ac_connected && o.state.ac_max_performance && at_maximum(
            state,
            o.state,
            limits,
        )),
{
}

/// The rails of maximum performance are those that a request for the highest
/// sustained limit would get.
#[verifier::rlimit(40)]
#[verifier::spinoff_prover]
pub proof fn maximum_performance_is_the_highest_request(
    state: ProfileState,
    limits: PowerEnvelopeLimits,
    config: RuntimeConfig,
)
    requires
        !state.is_ac_connected,
        state.ac_max_performance,
        limits.spl_max.0 % 1000 == 0,
    ensures
        reducer::next(
            state,
            Transition::SetSpl((limits.spl_max.0 / 1000) as u32),
            limits,
            config,
        ) matches Ok(asked) ==> (reducer::next(
            state,
            Transition::AcPowerChanged(true),
            limits,
            config,
        ) matches Ok(o) && o.state.power_target == asked.state.power_target),
{
}

/// Unplugging, turning the lock off on AC, and waking up on battery bring back
/// every lever as it was kept, and use up what was kept.
#[verifier::rlimit(40)]
#[verifier::spinoff_prover]
pub proof fn what_was_kept_comes_back(
    state: ProfileState,
    limits: PowerEnvelopeLimits,
    config: RuntimeConfig,
)
    requires
        state.last_dc_state is Some,
    ensures
        ({
            let kept = state.last_dc_state->0;
            let back = ProfileState {
                power_target: kept.power_target,
                active_profile: kept.active_profile,
                active_fan_curve: kept.active_fan_curve,
                fan_follows_tdp: kept.fan_follows_tdp,
                active_gpu_clock: kept.active_gpu_clock,
                gpu_follows_tdp: kept.gpu_follows_tdp,
                last_dc_state: None,
                ..state
            };
            &&& state.is_ac_connected ==> (reducer::next(
                state,
                Transition::AcPowerChanged(false),
                limits,
                config,
            ) matches Ok(o) && o.state == (ProfileState { is_ac_connected: false, ..back }))
            &&& state.is_ac_connected && state.ac_max_performance ==> (reducer::next(
                state,
                Transition::SetAcMaxPerformance(false),
                limits,
                config,
            ) matches Ok(o) && o.state == (ProfileState { ac_max_performance: false, ..back }))
            &&& !(state.is_ac_connected && state.ac_max_performance) ==> (reducer::next(
                state,
                Transition::SystemResumed,
                limits,
                config,
            ) matches Ok(o) && o.state == back)
        }),
{
}

/// Unplugged with the lock on and nothing kept, the daemon goes halfway up the range
/// of the hardware and lets the fans follow.
#[verifier::rlimit(40)]
#[verifier::spinoff_prover]
pub proof fn unplugging_without_a_past_goes_halfway(
    state: ProfileState,
    limits: PowerEnvelopeLimits,
    config: RuntimeConfig,
)
    requires
        state.is_ac_connected,
        state.ac_max_performance,
        state.last_dc_state is None,
    ensures
        reducer::next(state, Transition::AcPowerChanged(false), limits, config) matches Ok(o) ==> {
            let watts = o.state.power_target.spl.0 / 1000;
            let ends = limits.spl_min.0 / 1000 + limits.spl_max.0 / 1000;
            &&& !o.state.is_ac_connected
            &&& o.state.fan_follows_tdp
            &&& o.state.power_target.spl.0 == watts * 1000
            &&& 2 * watts <= ends <= 2 * watts + 1
            &&& o.state.power_target != state.power_target ==> o.state.active_fan_curve == Some(
                FanCurveSelection::Preset(
                    inference::tier_of(
                        o.state.power_target.spl.0,
                        limits,
                        config.profile_thresholds,
                    ),
                ),
            )
            &&& o.state.active_profile == state.active_profile
            &&& o.state.charge_end_threshold == state.charge_end_threshold
        },
{
}

/// Waking up with nothing kept and no lock changes no lever, and programs each one
/// again and nothing else; a GPU clock is reset before it is programmed.
#[verifier::rlimit(40)]
#[verifier::spinoff_prover]
pub proof fn waking_up_programs_everything_again(
    state: ProfileState,
    limits: PowerEnvelopeLimits,
    config: RuntimeConfig,
)
    requires
        !(state.is_ac_connected && state.ac_max_performance),
        state.last_dc_state is None,
    ensures
        reducer::next(state, Transition::SystemResumed, limits, config) matches Ok(o) && {
            &&& o.state == state
            &&& o.effects.contains(Effect::ApplyPowerEnvelope(state.power_target))
            &&& o.effects.contains(Effect::ApplyPlatformProfile(state.active_profile))
            &&& o.effects.contains(Effect::ApplyChargeThreshold(state.charge_end_threshold))
            &&& state.active_fan_curve matches Some(curve) ==> o.effects.contains(
                Effect::ApplyFanCurve(curve),
            )
            &&& state.active_gpu_clock matches Some(clock) ==> o.effects.contains(
                Effect::ApplyGpuClockRange(clock),
            ) && o.effects[o.effects.len() - 2] == Effect::ResetGpuClocks
            &&& o.effects.len() == 3 + (if state.active_fan_curve is Some {
                1int
            } else {
                0
            }) + (if state.active_gpu_clock is Some {
                2int
            } else {
                0
            })
        },
{
    let o = reducer::next(state, Transition::SystemResumed, limits, config)->Ok_0;
    assert(o.effects[0] == Effect::ApplyPowerEnvelope(state.power_target));
    assert(o.effects[1] == Effect::ApplyPlatformProfile(state.active_profile));
    assert(o.effects[2] == Effect::ApplyChargeThreshold(state.charge_end_threshold));
    if let Some(curve) = state.active_fan_curve {
        assert(o.effects[3] == Effect::ApplyFanCurve(curve));
    }
    if let Some(clock) = state.active_gpu_clock {
        assert(o.effects[o.effects.len() - 1] == Effect::ApplyGpuClockRange(clock));
    }
}

/// The lock is a preference: on battery it is stored and moves nothing.
#[verifier::rlimit(40)]
#[verifier::spinoff_prover]
pub proof fn on_battery_the_lock_is_only_stored(
    state: ProfileState,
    enabled: bool,
    limits: PowerEnvelopeLimits,
    config: RuntimeConfig,
)
    requires
        !state.is_ac_connected,
    ensures
        reducer::next(state, Transition::SetAcMaxPerformance(enabled), limits, config) matches Ok(o)
            && o.state == (ProfileState { ac_max_performance: enabled, ..state }) && forall|i: int|
            0 <= i < o.effects.len() ==> (#[trigger] o.effects[i]) is PersistState,
{
}

// ---------------------------------------------------------------------------
// Defaults
// ---------------------------------------------------------------------------

/// The defaults are halfway up the range of the hardware, the performance profile, a
/// charge limit of 80 percent, and fans and GPU clock with the firmware.
#[verifier::rlimit(40)]
#[verifier::spinoff_prover]
pub proof fn defaults_are_the_recommended_ones(
    state: ProfileState,
    limits: PowerEnvelopeLimits,
    config: RuntimeConfig,
)
    requires
        !(state.is_ac_connected && state.ac_max_performance),
    ensures
        reducer::next(state, Transition::RestoreDefaults, limits, config) matches Ok(o) ==> {
            let watts = o.state.power_target.spl.0 / 1000;
            let ends = limits.spl_min.0 / 1000 + limits.spl_max.0 / 1000;
            &&& o.state.power_target.spl.0 == watts * 1000
            &&& 2 * watts <= ends <= 2 * watts + 1
            &&& o.state == (ProfileState {
                power_target: o.state.power_target,
                active_profile: o.state.active_profile,
                charge_end_threshold: 80,
                active_fan_curve: None,
                fan_follows_tdp: false,
                active_gpu_clock: None,
                gpu_follows_tdp: false,
                ..state
            })
            &&& o.state.active_profile is Performance
        },
{
    if let Ok(a) = reducer::next(
        state,
        Transition::SetPreset(TdpPreset::Balanced),
        limits,
        config,
    ) {
        balanced_is_halfway(state, limits, config);
        power_requests_move_nothing_else(
            state,
            Transition::SetPreset(TdpPreset::Balanced),
            limits,
            config,
        );
        let b = reducer::profile_set(a.state, ProfileName::Performance);
        let c = reducer::charge_set(b.state, 80);
        let d = reducer::fan_released(c.state);
        let e = reducer::clock_released(d.state);
        assert(b.state == (ProfileState { active_profile: b.state.active_profile, ..a.state }));
        assert(c.state == (ProfileState { charge_end_threshold: 80, ..b.state }));
        assert(d.state == (ProfileState {
            active_fan_curve: None,
            fan_follows_tdp: false,
            ..c.state
        }));
        assert(e.state == (ProfileState {
            active_gpu_clock: None,
            gpu_follows_tdp: false,
            ..d.state
        }));
    }
}

// ---------------------------------------------------------------------------
// Asking again
// ---------------------------------------------------------------------------

/// Whether a transition changes nothing here and asks for nothing.
pub open spec fn is_idle(
    state: ProfileState,
    transition: Transition,
    limits: PowerEnvelopeLimits,
    config: RuntimeConfig,
) -> bool {
    reducer::next(state, transition, limits, config) matches Ok(o) && o.state == state
        && o.effects.len() == 0
}

/// Asking again for power that is in force, for the profile or the charge limit in force, to
/// follow once more, or to hand back once more, changes nothing and asks for nothing.
#[verifier::rlimit(40)]
#[verifier::spinoff_prover]
pub proof fn asking_again_changes_nothing(
    state: ProfileState,
    transition: Transition,
    limits: PowerEnvelopeLimits,
    config: RuntimeConfig,
)
    requires
        transition is SetSpl || transition is SetPreset || transition is SetEnvelope
            || transition is SetProfile || transition is ChargeThresholdChanged
            || transition is EnableFanAuto || transition is EnableGpuAutoFollow
            || transition is ResetFanCurve || transition is ResetGpuClocks,
    ensures
        reducer::next(state, transition, limits, config) matches Ok(o) ==> is_idle(
            o.state,
            transition,
            limits,
            config,
        ),
{
}

/// A lever that follows the envelope and already runs its tier is left alone when the
/// envelope moves.
#[verifier::rlimit(40)]
#[verifier::spinoff_prover]
pub proof fn followers_that_fit_are_left_alone(
    state: ProfileState,
    target: PowerEnvelopeTarget,
    limits: PowerEnvelopeLimits,
    config: RuntimeConfig,
)
    ensures
        reducer::next(state, Transition::SetEnvelope(target), limits, config) matches Ok(o) ==> {
            &&& o.state.active_fan_curve == state.active_fan_curve ==> forall|i: int|
                0 <= i < o.effects.len() ==> !((#[trigger] o.effects[i]) is ApplyFanCurve)
            &&& o.state.active_gpu_clock == state.active_gpu_clock ==> forall|i: int|
                0 <= i < o.effects.len() ==> !((#[trigger] o.effects[i]) is ApplyGpuClockRange)
        },
{
}

/// Returning to what was kept programs only what differs from it.
#[verifier::rlimit(40)]
#[verifier::spinoff_prover]
pub proof fn returning_programs_only_what_differs(
    state: ProfileState,
    limits: PowerEnvelopeLimits,
    config: RuntimeConfig,
)
    requires
        state.is_ac_connected,
        state.last_dc_state is Some,
    ensures
        reducer::next(state, Transition::AcPowerChanged(false), limits, config) matches Ok(o) && {
            let kept = state.last_dc_state->0;
            forall|i: int|
                0 <= i < o.effects.len() ==> match #[trigger] o.effects[i] {
                    Effect::ApplyPowerEnvelope(_) => kept.power_target != state.power_target,
                    Effect::ApplyPlatformProfile(_) => !kept.active_profile.same(
                        state.active_profile,
                    ),
                    Effect::ApplyFanCurve(_) | Effect::ResetFanCurve => kept.active_fan_curve
                        != state.active_fan_curve,
                    Effect::ApplyGpuClockRange(_) | Effect::ResetGpuClocks => kept.active_gpu_clock
                        != state.active_gpu_clock,
                    Effect::ApplyChargeThreshold(_) => false,
                    Effect::PersistState => true,
                }
        },
{
}

/// Turning the lock on while plugged in keeps what was kept before, and what the levers stand
/// at where nothing was; plugging in keeps what they stand at.
#[verifier::rlimit(40)]
#[verifier::spinoff_prover]
pub proof fn the_past_is_kept_for_later(
    state: ProfileState,
    limits: PowerEnvelopeLimits,
    config: RuntimeConfig,
)
    ensures
        state.is_ac_connected && !state.ac_max_performance ==> (reducer::next(
            state,
            Transition::SetAcMaxPerformance(true),
            limits,
            config,
        ) matches Ok(o) && (o.state.last_dc_state matches Some(kept) && (
        state.last_dc_state is Some ==> kept == state.last_dc_state->0) && (
        state.last_dc_state is None ==> stands_at(state, kept)))),
        !state.is_ac_connected && state.ac_max_performance ==> (reducer::next(
            state,
            Transition::AcPowerChanged(true),
            limits,
            config,
        ) matches Ok(o) && (o.state.last_dc_state matches Some(kept) && stands_at(state, kept))),
        state.is_ac_connected && state.ac_max_performance ==> (reducer::next(
            state,
            Transition::SystemResumed,
            limits,
            config,
        ) matches Ok(o) && o.state.last_dc_state == state.last_dc_state),
{
}

/// Whether what is kept is what every lever of the state stands at.
pub open spec fn stands_at(state: ProfileState, kept: DcSnapshot) -> bool {
    &&& kept.power_target == state.power_target
    &&& kept.active_profile == state.active_profile
    &&& kept.active_fan_curve == state.active_fan_curve
    &&& kept.fan_follows_tdp == state.fan_follows_tdp
    &&& kept.active_gpu_clock == state.active_gpu_clock
    &&& kept.gpu_follows_tdp == state.gpu_follows_tdp
}

/// Waking up always programs the charge limit, whatever else there is to do.
#[verifier::rlimit(40)]
#[verifier::spinoff_prover]
pub proof fn waking_up_programs_the_charge_limit(
    state: ProfileState,
    limits: PowerEnvelopeLimits,
    config: RuntimeConfig,
)
    ensures
        reducer::next(state, Transition::SystemResumed, limits, config) matches Ok(o)
            && o.effects.contains(Effect::ApplyChargeThreshold(state.charge_end_threshold)),
{
    let o = reducer::next(state, Transition::SystemResumed, limits, config)->Ok_0;
    let charge = Effect::ApplyChargeThreshold(state.charge_end_threshold);
    let n = o.effects.len() as int;
    if state.is_ac_connected && state.ac_max_performance {
        assert(o.effects[n - 2] == charge);
    } else if state.last_dc_state is Some {
        assert(o.effects[n - 1] == charge);
    } else {
        assert(o.effects[2] == charge);
    }
}

} // verus!
