//! How the state changes, and what each change asks of the hardware.
//!
//! `next` says for every state and transition what the new state and the
//! effects are; `reduce` computes it. What each request is for is in
//! `promises`, and what holds over any run of the daemon is in
//! `laws` and `consistency`.

use crate::charge::DEFAULT_CHARGE_THRESHOLD;
use crate::effect::Effect;
use crate::error::{violation, HpdError};
use crate::error;
use crate::fan_curve::{FanCurvePreset, FanCurveSelection};
use crate::gpu_clock::{GpuClockRange, GpuClockSelection};
use crate::inference::infer_fan_curve_from_spl;
use crate::inference;
use crate::invariants::validate_power_envelope;
use crate::invariants;
use crate::power::{PowerEnvelopeLimits, PowerEnvelopeTarget};
use crate::profile::{ProfileName, RuntimeConfig, TdpPreset};
use crate::single::{scale_down, Single};
use crate::single;
use crate::state::{DcSnapshot, ProfileState};
use crate::text::push_dec;
use crate::text;
use crate::transition::{is_locked_write, Transition};
use crate::units::PowerMilliwatts;
use crate::units;
use vstd::prelude::*;

verus! {

/// A new state, and what it asks for.
#[derive(Debug)]
pub struct ReducerOutput {
    pub new_state: ProfileState,
    pub effects: Vec<Effect>,
}

/// A new state, and what it asks for.
pub struct Outcome {
    pub state: ProfileState,
    pub effects: Seq<Effect>,
}

impl ReducerOutput {
    /// Whether this is the given outcome.
    pub open spec fn is(self, outcome: Outcome) -> bool {
        self.new_state == outcome.state && self.effects@ == outcome.effects
    }
}

/// Whether `r` is the given outcome, or the refusal in the given words.
pub open spec fn yields(r: Result<ReducerOutput, HpdError>, want: Result<Outcome, Seq<char>>) -> bool {
    match want {
        Ok(outcome) => r matches Ok(output) && output.is(outcome),
        Err(words) => r matches Err(e) && error::is_violation(e, words),
    }
}

// ---------------------------------------------------------------------------
// The rules
// ---------------------------------------------------------------------------

/// One effect, or none.
pub open spec fn only_if(condition: bool, effect: Effect) -> Seq<Effect> {
    if condition {
        seq![effect]
    } else {
        Seq::empty()
    }
}

/// Nothing changes.
pub open spec fn unchanged(state: ProfileState) -> Outcome {
    Outcome { state, effects: Seq::empty() }
}

pub open spec fn least(a: u32, b: u32) -> u32 {
    if a < b {
        a
    } else {
        b
    }
}

pub open spec fn greatest(a: u32, b: u32) -> u32 {
    if a < b {
        b
    } else {
        a
    }
}

/// A boost rail: the sustained limit scaled by its factor, within the range of
/// the hardware, but never below the rail `under` it.
pub open spec fn boost_rail(spl: u32, factor: Single, under: u32, min: u32, max: u32) -> u32 {
    greatest(greatest(least(single::scaled_down(spl, factor), max), under), min)
}

/// The envelope that a sustained limit stands for.
pub open spec fn boosted(
    spl: PowerMilliwatts,
    limits: PowerEnvelopeLimits,
    config: RuntimeConfig,
) -> PowerEnvelopeTarget {
    let sppt = boost_rail(spl.0, config.sppt_factor, spl.0, limits.sppt_min.0, limits.sppt_max.0);
    let fppt = boost_rail(spl.0, config.fppt_factor, sppt, limits.fppt_min.0, limits.fppt_max.0);
    PowerEnvelopeTarget {
        spl,
        sppt: PowerMilliwatts(sppt),
        fppt: Some(PowerMilliwatts(fppt)),
    }
}

/// The state moved to a power envelope. The fan curve and the GPU clock move
/// along where they follow it, and only what differs is programmed.
pub open spec fn retargeted(
    state: ProfileState,
    target: PowerEnvelopeTarget,
    limits: PowerEnvelopeLimits,
    config: RuntimeConfig,
) -> Outcome {
    let tier = inference::tier_of(target.spl.0, limits, config.profile_thresholds);
    let curve = if state.fan_follows_tdp {
        Some(FanCurveSelection::Preset(tier))
    } else {
        state.active_fan_curve
    };
    let clock = if state.gpu_follows_tdp {
        Some(GpuClockSelection::Preset(tier))
    } else {
        state.active_gpu_clock
    };
    if state.power_target == target {
        unchanged(state)
    } else {
        Outcome {
            state: ProfileState {
                power_target: target,
                active_fan_curve: curve,
                active_gpu_clock: clock,
                ..state
            },
            effects: seq![Effect::ApplyPowerEnvelope(target)] + only_if(
                curve != state.active_fan_curve,
                Effect::ApplyFanCurve(FanCurveSelection::Preset(tier)),
            ) + only_if(
                clock != state.active_gpu_clock,
                Effect::ApplyGpuClockRange(GpuClockSelection::Preset(tier)),
            ) + seq![Effect::PersistState],
        }
    }
}

/// The outcome of asking for a sustained limit in watts.
pub open spec fn spl_set(
    state: ProfileState,
    watts: u32,
    limits: PowerEnvelopeLimits,
    config: RuntimeConfig,
) -> Result<Outcome, Seq<char>> {
    let milliwatts = watts * 1000;
    let target = boosted(PowerMilliwatts(milliwatts as u32), limits, config);
    if milliwatts > u32::MAX {
        Err(units::too_many_watts(watts))
    } else if milliwatts < limits.spl_min.0 || milliwatts > limits.spl_max.0 {
        Err("SPL ("@ + text::dec(watts as nat) + "W) out of hardware range"@)
    } else {
        match invariants::envelope_defect(target, limits) {
            Some(words) => Err(words),
            None => Ok(retargeted(state, target, limits, config)),
        }
    }
}

/// The watts that a preset stands for.
pub open spec fn preset_watts(preset: TdpPreset, limits: PowerEnvelopeLimits) -> u32 {
    let low = limits.spl_min.watts();
    let high = limits.spl_max.watts();
    match preset {
        TdpPreset::Eco => low as u32,
        TdpPreset::Balanced => ((low + high) / 2) as u32,
        TdpPreset::Max => high as u32,
    }
}

/// The outcome of asking for a TDP preset.
pub open spec fn preset_set(
    state: ProfileState,
    preset: TdpPreset,
    limits: PowerEnvelopeLimits,
    config: RuntimeConfig,
) -> Result<Outcome, Seq<char>> {
    spl_set(state, preset_watts(preset, limits), limits, config)
}

/// The effect that puts the fan curve back in force, where there is one.
pub open spec fn curve_reasserted(state: ProfileState) -> Seq<Effect> {
    match state.active_fan_curve {
        Some(selection) => seq![Effect::ApplyFanCurve(selection)],
        None => Seq::empty(),
    }
}

/// The state in another platform profile. The firmware may drop the fan curve
/// on the switch, so the curve is programmed again after it.
pub open spec fn profile_set(state: ProfileState, profile: ProfileName) -> Outcome {
    if state.active_profile.same(profile) {
        unchanged(state)
    } else {
        Outcome {
            state: ProfileState { active_profile: profile, ..state },
            effects: seq![Effect::ApplyPlatformProfile(profile)] + curve_reasserted(state)
                + seq![Effect::PersistState],
        }
    }
}

/// The state with the fans on a selection that was asked for.
pub open spec fn curve_set(state: ProfileState, selection: FanCurveSelection) -> Outcome {
    Outcome {
        state: ProfileState {
            fan_follows_tdp: false,
            active_fan_curve: Some(selection),
            ..state
        },
        effects: seq![Effect::ApplyFanCurve(selection), Effect::PersistState],
    }
}

/// The state with the fan curve following the power envelope.
pub open spec fn fan_followed(
    state: ProfileState,
    limits: PowerEnvelopeLimits,
    config: RuntimeConfig,
) -> Outcome {
    let selection = FanCurveSelection::Preset(
        inference::tier_of(state.power_target.spl.0, limits, config.profile_thresholds),
    );
    if state.fan_follows_tdp {
        unchanged(state)
    } else {
        Outcome {
            state: ProfileState {
                fan_follows_tdp: true,
                active_fan_curve: Some(selection),
                ..state
            },
            effects: seq![Effect::ApplyFanCurve(selection), Effect::PersistState],
        }
    }
}

/// The state with the fans back with the firmware.
pub open spec fn fan_released(state: ProfileState) -> Outcome {
    if state.active_fan_curve is None && !state.fan_follows_tdp {
        unchanged(state)
    } else {
        Outcome {
            state: ProfileState { active_fan_curve: None, fan_follows_tdp: false, ..state },
            effects: seq![Effect::ResetFanCurve, Effect::PersistState],
        }
    }
}

/// The state with the GPU clock held to a range that was asked for.
pub open spec fn clock_set(state: ProfileState, range: GpuClockRange) -> Outcome {
    let selection = GpuClockSelection::Custom(range);
    Outcome {
        state: ProfileState {
            gpu_follows_tdp: false,
            active_gpu_clock: Some(selection),
            ..state
        },
        effects: seq![Effect::ApplyGpuClockRange(selection), Effect::PersistState],
    }
}

/// The state with the GPU clock following the power envelope.
pub open spec fn clock_followed(
    state: ProfileState,
    limits: PowerEnvelopeLimits,
    config: RuntimeConfig,
) -> Outcome {
    let selection = GpuClockSelection::Preset(
        inference::tier_of(state.power_target.spl.0, limits, config.profile_thresholds),
    );
    if state.gpu_follows_tdp {
        unchanged(state)
    } else {
        Outcome {
            state: ProfileState {
                gpu_follows_tdp: true,
                active_gpu_clock: Some(selection),
                ..state
            },
            effects: seq![Effect::ApplyGpuClockRange(selection), Effect::PersistState],
        }
    }
}

/// The state with the GPU clock back with the firmware, following nothing.
pub open spec fn clock_released(state: ProfileState) -> Outcome {
    if state.active_gpu_clock is None && !state.gpu_follows_tdp {
        unchanged(state)
    } else {
        Outcome {
            state: ProfileState { active_gpu_clock: None, gpu_follows_tdp: false, ..state },
            effects: seq![Effect::ResetGpuClocks, Effect::PersistState],
        }
    }
}

/// The state with another charge limit.
pub open spec fn charge_set(state: ProfileState, threshold: u8) -> Outcome {
    if state.charge_end_threshold == threshold {
        unchanged(state)
    } else {
        Outcome {
            state: ProfileState { charge_end_threshold: threshold, ..state },
            effects: seq![Effect::ApplyChargeThreshold(threshold), Effect::PersistState],
        }
    }
}

/// The state at maximum performance: full power, the performance profile, the
/// fans at their coolest and, where the GPU clock is held at all, its top tier.
/// Everything is programmed, whatever it stood at.
pub open spec fn maximized(
    state: ProfileState,
    limits: PowerEnvelopeLimits,
    config: RuntimeConfig,
) -> Outcome {
    let target = boosted(limits.spl_max, limits, config);
    let curve = FanCurveSelection::Preset(FanCurvePreset::Aggressive);
    let clock = GpuClockSelection::Preset(FanCurvePreset::Aggressive);
    Outcome {
        state: ProfileState {
            power_target: target,
            active_profile: ProfileName::Performance,
            active_fan_curve: Some(curve),
            fan_follows_tdp: false,
            active_gpu_clock: if state.active_gpu_clock is Some {
                Some(clock)
            } else {
                None
            },
            gpu_follows_tdp: state.gpu_follows_tdp && state.active_gpu_clock is None,
            ..state
        },
        effects: seq![
            Effect::ApplyPowerEnvelope(target),
            Effect::ApplyPlatformProfile(ProfileName::Performance),
            Effect::ApplyFanCurve(curve),
        ] + only_if(state.active_gpu_clock is Some, Effect::ApplyGpuClockRange(clock)),
    }
}

/// The effect that puts the fans on a selection.
pub open spec fn curve_effect(selection: Option<FanCurveSelection>) -> Effect {
    match selection {
        Some(selection) => Effect::ApplyFanCurve(selection),
        None => Effect::ResetFanCurve,
    }
}

/// The effect that puts the GPU clock on a selection.
pub open spec fn clock_effect(selection: Option<GpuClockSelection>) -> Effect {
    match selection {
        Some(selection) => Effect::ApplyGpuClockRange(selection),
        None => Effect::ResetGpuClocks,
    }
}

/// The state with its levers back where a snapshot has them. Only what differs
/// is programmed, and the snapshot is used up.
pub open spec fn restored(state: ProfileState, snapshot: DcSnapshot) -> Outcome {
    Outcome {
        state: ProfileState {
            power_target: snapshot.power_target,
            active_profile: snapshot.active_profile,
            active_fan_curve: snapshot.active_fan_curve,
            fan_follows_tdp: snapshot.fan_follows_tdp,
            active_gpu_clock: snapshot.active_gpu_clock,
            gpu_follows_tdp: snapshot.gpu_follows_tdp,
            last_dc_state: None,
            ..state
        },
        effects: only_if(
            state.power_target != snapshot.power_target,
            Effect::ApplyPowerEnvelope(snapshot.power_target),
        ) + only_if(
            !state.active_profile.same(snapshot.active_profile),
            Effect::ApplyPlatformProfile(snapshot.active_profile),
        ) + only_if(
            state.active_fan_curve != snapshot.active_fan_curve,
            curve_effect(snapshot.active_fan_curve),
        ) + only_if(
            state.active_gpu_clock != snapshot.active_gpu_clock,
            clock_effect(snapshot.active_gpu_clock),
        ) + seq![Effect::PersistState],
    }
}

/// The charger was plugged in: maximum performance where that is wanted, with
/// the levers kept for later.
pub open spec fn plugged(
    state: ProfileState,
    limits: PowerEnvelopeLimits,
    config: RuntimeConfig,
) -> Outcome {
    if state.ac_max_performance {
        let pinned = maximized(state, limits, config);
        Outcome {
            state: ProfileState {
                last_dc_state: Some(state.levers()),
                is_ac_connected: true,
                ..pinned.state
            },
            effects: pinned.effects + seq![Effect::PersistState],
        }
    } else {
        unchanged(ProfileState { is_ac_connected: true, ..state })
    }
}

/// The charger was unplugged: back to what the levers stood at or, where that
/// is not known, to the balanced preset with the fans following it.
pub open spec fn unplugged(
    state: ProfileState,
    limits: PowerEnvelopeLimits,
    config: RuntimeConfig,
) -> Result<Outcome, Seq<char>> {
    match state.last_dc_state {
        Some(snapshot) => {
            let back = restored(state, snapshot);
            Ok(
                Outcome {
                    state: ProfileState { is_ac_connected: false, ..back.state },
                    effects: back.effects,
                },
            )
        },
        None => if state.ac_max_performance {
            preset_set(
                ProfileState { is_ac_connected: false, fan_follows_tdp: true, ..state },
                TdpPreset::Balanced,
                limits,
                config,
            )
        } else {
            Ok(unchanged(ProfileState { is_ac_connected: false, ..state }))
        },
    }
}

/// The machine started or woke up: everything is programmed anew, since the
/// firmware may have dropped it.
pub open spec fn resumed(
    state: ProfileState,
    limits: PowerEnvelopeLimits,
    config: RuntimeConfig,
) -> Outcome {
    let charge = Effect::ApplyChargeThreshold(state.charge_end_threshold);
    if state.pinned() {
        let pinned = maximized(state, limits, config);
        Outcome {
            state: pinned.state,
            effects: pinned.effects + seq![charge, Effect::PersistState],
        }
    } else {
        match state.last_dc_state {
            Some(snapshot) => {
                let back = restored(state, snapshot);
                Outcome { state: back.state, effects: back.effects + seq![charge] }
            },
            None => Outcome {
                state,
                effects: seq![
                    Effect::ApplyPowerEnvelope(state.power_target),
                    Effect::ApplyPlatformProfile(state.active_profile),
                    charge,
                ] + curve_reasserted(state) + (match state.active_gpu_clock {
                    Some(selection) => seq![
                        Effect::ResetGpuClocks,
                        Effect::ApplyGpuClockRange(selection),
                    ],
                    None => Seq::empty(),
                }),
            },
        }
    }
}

/// The lock to maximum performance on AC was turned on or off.
pub open spec fn lock_set(
    state: ProfileState,
    enabled: bool,
    limits: PowerEnvelopeLimits,
    config: RuntimeConfig,
) -> Outcome {
    if state.ac_max_performance == enabled {
        unchanged(state)
    } else if !state.is_ac_connected {
        Outcome {
            state: ProfileState { ac_max_performance: enabled, ..state },
            effects: seq![Effect::PersistState],
        }
    } else if enabled {
        let pinned = maximized(state, limits, config);
        Outcome {
            state: ProfileState {
                ac_max_performance: true,
                last_dc_state: match state.last_dc_state {
                    Some(snapshot) => Some(snapshot),
                    None => Some(state.levers()),
                },
                ..pinned.state
            },
            effects: pinned.effects + seq![Effect::PersistState],
        }
    } else {
        match state.last_dc_state {
            Some(snapshot) => {
                let back = restored(state, snapshot);
                Outcome {
                    state: ProfileState { ac_max_performance: false, ..back.state },
                    effects: back.effects,
                }
            },
            None => Outcome {
                state: ProfileState { ac_max_performance: false, ..state },
                effects: seq![Effect::PersistState],
            },
        }
    }
}

/// `effects` without `PersistState`.
pub open spec fn without_persist(effects: Seq<Effect>) -> Seq<Effect>
    decreases effects.len(),
{
    if effects.len() == 0 {
        Seq::empty()
    } else if effects.last() is PersistState {
        without_persist(effects.drop_last())
    } else {
        without_persist(effects.drop_last()).push(effects.last())
    }
}

/// Whether the state is to be kept.
pub open spec fn persists(effects: Seq<Effect>) -> bool {
    exists|i: int| 0 <= i < effects.len() && #[trigger] effects[i] is PersistState
}

/// `effects` with one `PersistState` at the end in place of any among them.
pub open spec fn persist_once(effects: Seq<Effect>) -> Seq<Effect> {
    without_persist(effects) + only_if(persists(effects), Effect::PersistState)
}

/// Every lever at its recommended setting: the balanced preset, the performance
/// profile, the default charge limit, and fans and GPU clock with the firmware.
pub open spec fn defaults_restored(
    state: ProfileState,
    limits: PowerEnvelopeLimits,
    config: RuntimeConfig,
) -> Result<Outcome, Seq<char>> {
    match preset_set(state, TdpPreset::Balanced, limits, config) {
        Err(words) => Err(words),
        Ok(a) => {
            let b = profile_set(a.state, ProfileName::Performance);
            let c = charge_set(b.state, DEFAULT_CHARGE_THRESHOLD);
            let d = fan_released(c.state);
            let e = clock_released(d.state);
            Ok(
                Outcome {
                    state: e.state,
                    effects: persist_once(
                        a.effects + b.effects + c.effects + d.effects + e.effects,
                    ),
                },
            )
        },
    }
}

/// What becomes of `state` on `transition`, and what that asks for; or why the
/// transition is refused. While AC pins maximum performance, a request to move
/// a lever changes nothing.
pub open spec fn next(
    state: ProfileState,
    transition: Transition,
    limits: PowerEnvelopeLimits,
    config: RuntimeConfig,
) -> Result<Outcome, Seq<char>> {
    if state.pinned() && transition.moves_a_lever() {
        Ok(unchanged(state))
    } else {
        match transition {
            Transition::SetPreset(preset) => preset_set(state, preset, limits, config),
            Transition::SetSpl(watts) => spl_set(state, watts, limits, config),
            Transition::SetEnvelope(target) => match invariants::envelope_defect(target, limits) {
                Some(words) => Err(words),
                None => Ok(retargeted(state, target, limits, config)),
            },
            Transition::SetProfile(profile) => Ok(profile_set(state, profile)),
            Transition::SetCoolingLevel(preset) => Ok(
                curve_set(state, FanCurveSelection::Preset(preset)),
            ),
            Transition::SetCustomFanCurve { cpu, gpu } => Ok(
                curve_set(state, FanCurveSelection::Custom { cpu, gpu }),
            ),
            Transition::SetGpuClockRange { min_mhz, max_mhz } => Ok(
                clock_set(state, GpuClockRange { min_mhz, max_mhz }),
            ),
            Transition::EnableGpuAutoFollow => Ok(clock_followed(state, limits, config)),
            Transition::ResetGpuClocks => Ok(clock_released(state)),
            Transition::ChargeThresholdChanged(threshold) => Ok(charge_set(state, threshold)),
            Transition::SyncPowerTarget(target) => Ok(
                unchanged(ProfileState { power_target: target, ..state }),
            ),
            Transition::SyncPlatformProfile(profile) => Ok(
                unchanged(ProfileState { active_profile: profile, ..state }),
            ),
            Transition::SyncChargeThreshold(threshold) => Ok(
                unchanged(ProfileState { charge_end_threshold: threshold, ..state }),
            ),
            Transition::SyncFanCurve(selection) => Ok(
                unchanged(ProfileState { active_fan_curve: selection, ..state }),
            ),
            Transition::SyncGpuClockRange(range) => Ok(
                unchanged(
                    ProfileState {
                        active_gpu_clock: match range {
                            Some(range) => Some(GpuClockSelection::Custom(range)),
                            None => None,
                        },
                        ..state
                    },
                ),
            ),
            Transition::AcPowerChanged(is_plugged) => if state.is_ac_connected == is_plugged {
                Ok(unchanged(state))
            } else if is_plugged {
                Ok(plugged(state, limits, config))
            } else {
                unplugged(state, limits, config)
            },
            Transition::SystemResumed => Ok(resumed(state, limits, config)),
            Transition::SetAcMaxPerformance(enabled) => Ok(
                lock_set(state, enabled, limits, config),
            ),
            Transition::EnableFanAuto => Ok(fan_followed(state, limits, config)),
            Transition::ResetFanCurve => Ok(fan_released(state)),
            Transition::RestoreDefaults => defaults_restored(state, limits, config),
            Transition::ConfigReload(_) => Ok(unchanged(state)),
            Transition::Shutdown => Ok(Outcome { state, effects: seq![Effect::PersistState] }),
        }
    }
}

// ---------------------------------------------------------------------------
// The computation
// ---------------------------------------------------------------------------

/// What becomes of `state` on `transition`, and what that asks for; or why the
/// transition is refused.
pub fn reduce(
    state: &ProfileState,
    transition: Transition,
    device_limits: &PowerEnvelopeLimits,
    config: &RuntimeConfig,
) -> (r: Result<ReducerOutput, HpdError>)
    ensures
        yields(r, next(*state, transition, *device_limits, *config)),
{
    if state.is_ac_connected && state.ac_max_performance && is_locked_write(&transition) {
        return Ok(keep(state));
    }
    match transition {
        Transition::SetPreset(preset) => set_preset(state, preset, device_limits, config),
        Transition::SetSpl(watts) => set_spl(state, watts, device_limits, config),
        Transition::SetEnvelope(target) => {
            match validate_power_envelope(&target, device_limits) {
                Ok(()) => Ok(apply_power_target(state, target, device_limits, config)),
                Err(e) => Err(e),
            }
        },
        Transition::SetProfile(profile) => Ok(set_profile(state, profile)),
        Transition::SetCoolingLevel(preset) => Ok(
            set_fan_curve(state, FanCurveSelection::Preset(preset)),
        ),
        Transition::SetCustomFanCurve { cpu, gpu } => Ok(
            set_fan_curve(state, FanCurveSelection::Custom { cpu, gpu }),
        ),
        Transition::SetGpuClockRange { min_mhz, max_mhz } => Ok(
            set_gpu_clock(state, GpuClockRange { min_mhz, max_mhz }),
        ),
        Transition::EnableGpuAutoFollow => Ok(follow_with_gpu_clock(state, device_limits, config)),
        Transition::ResetGpuClocks => Ok(release_gpu_clock(state)),
        Transition::ChargeThresholdChanged(threshold) => Ok(set_charge(state, threshold)),
        Transition::SyncPowerTarget(target) => {
            let mut o = keep(state);
            o.new_state.power_target = target;
            Ok(o)
        },
        Transition::SyncPlatformProfile(profile) => {
            let mut o = keep(state);
            o.new_state.active_profile = profile;
            Ok(o)
        },
        Transition::SyncChargeThreshold(threshold) => {
            let mut o = keep(state);
            o.new_state.charge_end_threshold = threshold;
            Ok(o)
        },
        Transition::SyncFanCurve(selection) => {
            let mut o = keep(state);
            o.new_state.active_fan_curve = selection;
            Ok(o)
        },
        Transition::SyncGpuClockRange(range) => {
            let mut o = keep(state);
            o.new_state.active_gpu_clock = match range {
                Some(range) => Some(GpuClockSelection::Custom(range)),
                None => None,
            };
            Ok(o)
        },
        Transition::AcPowerChanged(is_plugged) => change_ac_power(
            state,
            is_plugged,
            device_limits,
            config,
        ),
        Transition::SystemResumed => Ok(resume(state, device_limits, config)),
        Transition::SetAcMaxPerformance(enabled) => Ok(
            set_ac_max_performance(state, enabled, device_limits, config),
        ),
        Transition::EnableFanAuto => Ok(follow_with_fans(state, device_limits, config)),
        Transition::ResetFanCurve => Ok(release_fans(state)),
        Transition::RestoreDefaults => restore_defaults(state, device_limits, config),
        Transition::ConfigReload(_) => Ok(keep(state)),
        Transition::Shutdown => {
            let mut o = keep(state);
            o.effects.push(Effect::PersistState);
            assert(o.effects@ =~= seq![Effect::PersistState]);
            Ok(o)
        },
    }
}

fn keep(state: &ProfileState) -> (r: ReducerOutput)
    ensures
        r.is(unchanged(*state)),
{
    ReducerOutput { new_state: state.clone(), effects: Vec::new() }
}

/// The envelope that a sustained limit stands for.
pub fn derive_boosted_envelope(
    spl: PowerMilliwatts,
    device_limits: &PowerEnvelopeLimits,
    config: &RuntimeConfig,
) -> (r: PowerEnvelopeTarget)
    ensures
        r == boosted(spl, *device_limits, *config),
{
    let sppt = boost(
        spl.0,
        config.sppt_factor,
        spl.0,
        device_limits.sppt_min.0,
        device_limits.sppt_max.0,
    );
    let fppt = boost(
        spl.0,
        config.fppt_factor,
        sppt,
        device_limits.fppt_min.0,
        device_limits.fppt_max.0,
    );
    PowerEnvelopeTarget { spl, sppt: PowerMilliwatts(sppt), fppt: Some(PowerMilliwatts(fppt)) }
}

fn boost(spl: u32, factor: Single, under: u32, min: u32, max: u32) -> (r: u32)
    ensures
        r == boost_rail(spl, factor, under, min, max),
{
    let raw: u32 = scale_down(spl, factor);
    let capped: u32 = if raw < max {
        raw
    } else {
        max
    };
    let raised: u32 = if capped < under {
        under
    } else {
        capped
    };
    if raised < min {
        min
    } else {
        raised
    }
}

fn apply_power_target(
    current_state: &ProfileState,
    new_target: PowerEnvelopeTarget,
    device_limits: &PowerEnvelopeLimits,
    config: &RuntimeConfig,
) -> (r: ReducerOutput)
    ensures
        r.is(retargeted(*current_state, new_target, *device_limits, *config)),
{
    let mut o = keep(current_state);
    if current_state.power_target != new_target {
        o.new_state.power_target = new_target;
        o.effects.push(Effect::ApplyPowerEnvelope(new_target));
        let tier = infer_fan_curve_from_spl(
            &new_target,
            device_limits,
            &config.profile_thresholds,
        );
        if current_state.fan_follows_tdp {
            let selection = FanCurveSelection::Preset(tier);
            if current_state.active_fan_curve != Some(selection) {
                o.new_state.active_fan_curve = Some(selection);
                o.effects.push(Effect::ApplyFanCurve(selection));
            }
        }
        if current_state.gpu_follows_tdp {
            let selection = GpuClockSelection::Preset(tier);
            if current_state.active_gpu_clock != Some(selection) {
                o.new_state.active_gpu_clock = Some(selection);
                o.effects.push(Effect::ApplyGpuClockRange(selection));
            }
        }
        o.effects.push(Effect::PersistState);
    }
    assert(o.effects@ =~= retargeted(
        *current_state,
        new_target,
        *device_limits,
        *config,
    ).effects);
    o
}

fn set_spl(
    state: &ProfileState,
    watts: u32,
    device_limits: &PowerEnvelopeLimits,
    config: &RuntimeConfig,
) -> (r: Result<ReducerOutput, HpdError>)
    ensures
        yields(r, spl_set(*state, watts, *device_limits, *config)),
{
    let spl = match PowerMilliwatts::from_watts(watts) {
        Ok(spl) => spl,
        Err(e) => {
            return Err(e);
        },
    };
    if spl.0 < device_limits.spl_min.0 || spl.0 > device_limits.spl_max.0 {
        let mut s = "SPL (".to_owned();
        push_dec(&mut s, watts as u64);
        s.append("W) out of hardware range");
        return Err(violation(s));
    }
    let target = derive_boosted_envelope(spl, device_limits, config);
    match validate_power_envelope(&target, device_limits) {
        Ok(()) => Ok(apply_power_target(state, target, device_limits, config)),
        Err(e) => Err(e),
    }
}

fn set_preset(
    state: &ProfileState,
    preset: TdpPreset,
    device_limits: &PowerEnvelopeLimits,
    config: &RuntimeConfig,
) -> (r: Result<ReducerOutput, HpdError>)
    ensures
        yields(r, preset_set(*state, preset, *device_limits, *config)),
{
    let min_w: u32 = device_limits.spl_min.as_watts();
    let max_w: u32 = device_limits.spl_max.as_watts();
    let watts: u32 = match preset {
        TdpPreset::Eco => min_w,
        TdpPreset::Balanced => min_w.saturating_add(max_w) / 2,
        TdpPreset::Max => max_w,
    };
    set_spl(state, watts, device_limits, config)
}

fn set_profile(state: &ProfileState, profile: ProfileName) -> (r: ReducerOutput)
    ensures
        r.is(profile_set(*state, profile)),
{
    let mut o = keep(state);
    if state.active_profile != profile {
        o.effects.push(Effect::ApplyPlatformProfile(profile.clone()));
        o.new_state.active_profile = profile;
        reassert_curve_after_profile(&o.new_state, &mut o.effects);
        o.effects.push(Effect::PersistState);
    }
    assert(o.effects@ =~= profile_set(*state, profile).effects);
    o
}

/// Put the fan curve back in force, where there is one.
fn reassert_curve_after_profile(new_state: &ProfileState, effects: &mut Vec<Effect>)
    ensures
        final(effects)@ == old(effects)@ + curve_reasserted(*new_state),
{
    if let Some(selection) = new_state.active_fan_curve {
        effects.push(Effect::ApplyFanCurve(selection));
    }
    assert(effects@ =~= old(effects)@ + curve_reasserted(*new_state));
}

fn set_fan_curve(state: &ProfileState, selection: FanCurveSelection) -> (r: ReducerOutput)
    ensures
        r.is(curve_set(*state, selection)),
{
    let mut o = keep(state);
    o.new_state.fan_follows_tdp = false;
    o.new_state.active_fan_curve = Some(selection);
    o.effects.push(Effect::ApplyFanCurve(selection));
    o.effects.push(Effect::PersistState);
    assert(o.effects@ =~= curve_set(*state, selection).effects);
    o
}

fn follow_with_fans(
    state: &ProfileState,
    device_limits: &PowerEnvelopeLimits,
    config: &RuntimeConfig,
) -> (r: ReducerOutput)
    ensures
        r.is(fan_followed(*state, *device_limits, *config)),
{
    let mut o = keep(state);
    if !state.fan_follows_tdp {
        let tier = infer_fan_curve_from_spl(
            &state.power_target,
            device_limits,
            &config.profile_thresholds,
        );
        let selection = FanCurveSelection::Preset(tier);
        o.new_state.fan_follows_tdp = true;
        o.new_state.active_fan_curve = Some(selection);
        o.effects.push(Effect::ApplyFanCurve(selection));
        o.effects.push(Effect::PersistState);
    }
    assert(o.effects@ =~= fan_followed(*state, *device_limits, *config).effects);
    o
}

fn set_gpu_clock(state: &ProfileState, range: GpuClockRange) -> (r: ReducerOutput)
    ensures
        r.is(clock_set(*state, range)),
{
    let selection = GpuClockSelection::Custom(range);
    let mut o = keep(state);
    o.new_state.gpu_follows_tdp = false;
    o.new_state.active_gpu_clock = Some(selection);
    o.effects.push(Effect::ApplyGpuClockRange(selection));
    o.effects.push(Effect::PersistState);
    assert(o.effects@ =~= clock_set(*state, range).effects);
    o
}

fn follow_with_gpu_clock(
    state: &ProfileState,
    device_limits: &PowerEnvelopeLimits,
    config: &RuntimeConfig,
) -> (r: ReducerOutput)
    ensures
        r.is(clock_followed(*state, *device_limits, *config)),
{
    let mut o = keep(state);
    if !state.gpu_follows_tdp {
        let tier = infer_fan_curve_from_spl(
            &state.power_target,
            device_limits,
            &config.profile_thresholds,
        );
        let selection = GpuClockSelection::Preset(tier);
        o.new_state.gpu_follows_tdp = true;
        o.new_state.active_gpu_clock = Some(selection);
        o.effects.push(Effect::ApplyGpuClockRange(selection));
        o.effects.push(Effect::PersistState);
    }
    assert(o.effects@ =~= clock_followed(*state, *device_limits, *config).effects);
    o
}

fn release_fans(state: &ProfileState) -> (r: ReducerOutput)
    ensures
        r.is(fan_released(*state)),
{
    let mut o = keep(state);
    if state.active_fan_curve.is_some() || state.fan_follows_tdp {
        o.new_state.active_fan_curve = None;
        o.new_state.fan_follows_tdp = false;
        o.effects.push(Effect::ResetFanCurve);
        o.effects.push(Effect::PersistState);
    }
    assert(o.effects@ =~= fan_released(*state).effects);
    o
}

fn release_gpu_clock(state: &ProfileState) -> (r: ReducerOutput)
    ensures
        r.is(clock_released(*state)),
{
    let mut o = keep(state);
    if state.active_gpu_clock.is_some() || state.gpu_follows_tdp {
        o.new_state.active_gpu_clock = None;
        o.new_state.gpu_follows_tdp = false;
        o.effects.push(Effect::ResetGpuClocks);
        o.effects.push(Effect::PersistState);
    }
    assert(o.effects@ =~= clock_released(*state).effects);
    o
}

fn set_charge(state: &ProfileState, threshold: u8) -> (r: ReducerOutput)
    ensures
        r.is(charge_set(*state, threshold)),
{
    let mut o = keep(state);
    if state.charge_end_threshold != threshold {
        o.new_state.charge_end_threshold = threshold;
        o.effects.push(Effect::ApplyChargeThreshold(threshold));
        o.effects.push(Effect::PersistState);
    }
    assert(o.effects@ =~= charge_set(*state, threshold).effects);
    o
}

fn force_ac_max_performance(
    base: &ProfileState,
    device_limits: &PowerEnvelopeLimits,
    config: &RuntimeConfig,
) -> (r: ReducerOutput)
    ensures
        r.is(maximized(*base, *device_limits, *config)),
{
    let target = derive_boosted_envelope(device_limits.spl_max, device_limits, config);
    let curve = FanCurveSelection::Preset(FanCurvePreset::Aggressive);
    let mut o = keep(base);
    o.new_state.power_target = target;
    o.new_state.active_profile = ProfileName::Performance;
    o.new_state.active_fan_curve = Some(curve);
    o.new_state.fan_follows_tdp = false;
    o.effects.push(Effect::ApplyPowerEnvelope(target));
    o.effects.push(Effect::ApplyPlatformProfile(ProfileName::Performance));
    o.effects.push(Effect::ApplyFanCurve(curve));
    if base.active_gpu_clock.is_some() {
        let clock = GpuClockSelection::Preset(FanCurvePreset::Aggressive);
        o.new_state.active_gpu_clock = Some(clock);
        o.new_state.gpu_follows_tdp = false;
        o.effects.push(Effect::ApplyGpuClockRange(clock));
    }
    assert(o.effects@ =~= maximized(*base, *device_limits, *config).effects);
    o
}

fn restore_dc_state(current: &ProfileState, snapshot: &DcSnapshot) -> (r: ReducerOutput)
    ensures
        r.is(restored(*current, *snapshot)),
{
    let mut o = keep(current);
    o.new_state.last_dc_state = None;
    o.new_state.power_target = snapshot.power_target;
    o.new_state.active_profile = snapshot.active_profile.clone();
    o.new_state.active_fan_curve = snapshot.active_fan_curve;
    o.new_state.fan_follows_tdp = snapshot.fan_follows_tdp;
    o.new_state.active_gpu_clock = snapshot.active_gpu_clock;
    o.new_state.gpu_follows_tdp = snapshot.gpu_follows_tdp;
    push_if(
        &mut o.effects,
        current.power_target != snapshot.power_target,
        Effect::ApplyPowerEnvelope(snapshot.power_target),
    );
    push_if(
        &mut o.effects,
        current.active_profile != snapshot.active_profile,
        Effect::ApplyPlatformProfile(snapshot.active_profile.clone()),
    );
    let curve = match snapshot.active_fan_curve {
        Some(selection) => Effect::ApplyFanCurve(selection),
        None => Effect::ResetFanCurve,
    };
    push_if(&mut o.effects, current.active_fan_curve != snapshot.active_fan_curve, curve);
    let clock = match snapshot.active_gpu_clock {
        Some(selection) => Effect::ApplyGpuClockRange(selection),
        None => Effect::ResetGpuClocks,
    };
    push_if(&mut o.effects, current.active_gpu_clock != snapshot.active_gpu_clock, clock);
    push_if(&mut o.effects, true, Effect::PersistState);
    o
}

/// Append an effect, or none.
fn push_if(effects: &mut Vec<Effect>, condition: bool, effect: Effect)
    ensures
        final(effects)@ == old(effects)@ + only_if(condition, effect),
{
    if condition {
        effects.push(effect);
    }
    assert(effects@ =~= old(effects)@ + only_if(condition, effect));
}

fn change_ac_power(
    state: &ProfileState,
    is_plugged: bool,
    device_limits: &PowerEnvelopeLimits,
    config: &RuntimeConfig,
) -> (r: Result<ReducerOutput, HpdError>)
    ensures
        yields(
            r,
            next(*state, Transition::AcPowerChanged(is_plugged), *device_limits, *config),
        ),
{
    if state.is_ac_connected == is_plugged {
        return Ok(keep(state));
    }
    if is_plugged {
        let mut o = if state.ac_max_performance {
            let mut o = force_ac_max_performance(state, device_limits, config);
            o.new_state.last_dc_state = Some(state.snapshot());
            o.effects.push(Effect::PersistState);
            o
        } else {
            keep(state)
        };
        o.new_state.is_ac_connected = true;
        assert(o.effects@ =~= plugged(*state, *device_limits, *config).effects);
        return Ok(o);
    }
    match &state.last_dc_state {
        Some(snapshot) => {
            let mut o = restore_dc_state(state, snapshot);
            o.new_state.is_ac_connected = false;
            Ok(o)
        },
        None => {
            let mut on_battery = state.clone();
            on_battery.is_ac_connected = false;
            if state.ac_max_performance {
                on_battery.fan_follows_tdp = true;
                set_preset(&on_battery, TdpPreset::Balanced, device_limits, config)
            } else {
                Ok(keep(&on_battery))
            }
        },
    }
}

fn resume(
    state: &ProfileState,
    device_limits: &PowerEnvelopeLimits,
    config: &RuntimeConfig,
) -> (r: ReducerOutput)
    ensures
        r.is(resumed(*state, *device_limits, *config)),
{
    if state.is_ac_connected && state.ac_max_performance {
        let mut o = force_ac_max_performance(state, device_limits, config);
        o.effects.push(Effect::ApplyChargeThreshold(state.charge_end_threshold));
        o.effects.push(Effect::PersistState);
        assert(o.effects@ =~= resumed(*state, *device_limits, *config).effects);
        return o;
    }
    if let Some(snapshot) = &state.last_dc_state {
        let mut o = restore_dc_state(state, snapshot);
        o.effects.push(Effect::ApplyChargeThreshold(state.charge_end_threshold));
        assert(o.effects@ =~= resumed(*state, *device_limits, *config).effects);
        return o;
    }
    let mut o = keep(state);
    o.effects.push(Effect::ApplyPowerEnvelope(state.power_target));
    o.effects.push(Effect::ApplyPlatformProfile(state.active_profile.clone()));
    o.effects.push(Effect::ApplyChargeThreshold(state.charge_end_threshold));
    if let Some(selection) = state.active_fan_curve {
        o.effects.push(Effect::ApplyFanCurve(selection));
    }
    if let Some(selection) = state.active_gpu_clock {
        o.effects.push(Effect::ResetGpuClocks);
        o.effects.push(Effect::ApplyGpuClockRange(selection));
    }
    assert(o.effects@ =~= resumed(*state, *device_limits, *config).effects);
    o
}

fn set_ac_max_performance(
    state: &ProfileState,
    enabled: bool,
    device_limits: &PowerEnvelopeLimits,
    config: &RuntimeConfig,
) -> (r: ReducerOutput)
    ensures
        r.is(lock_set(*state, enabled, *device_limits, *config)),
{
    if state.ac_max_performance == enabled {
        return keep(state);
    }
    if !state.is_ac_connected {
        let mut o = keep(state);
        o.new_state.ac_max_performance = enabled;
        o.effects.push(Effect::PersistState);
        assert(o.effects@ =~= lock_set(*state, enabled, *device_limits, *config).effects);
        return o;
    }
    if enabled {
        let mut o = force_ac_max_performance(state, device_limits, config);
        o.new_state.ac_max_performance = true;
        if state.last_dc_state.is_none() {
            o.new_state.last_dc_state = Some(state.snapshot());
        }
        o.effects.push(Effect::PersistState);
        assert(o.effects@ =~= lock_set(*state, enabled, *device_limits, *config).effects);
        return o;
    }
    match &state.last_dc_state {
        Some(snapshot) => {
            let mut o = restore_dc_state(state, snapshot);
            o.new_state.ac_max_performance = false;
            o
        },
        None => {
            let mut o = keep(state);
            o.new_state.ac_max_performance = false;
            o.effects.push(Effect::PersistState);
            assert(o.effects@ =~= lock_set(*state, enabled, *device_limits, *config).effects);
            o
        },
    }
}

fn restore_defaults(
    state: &ProfileState,
    device_limits: &PowerEnvelopeLimits,
    config: &RuntimeConfig,
) -> (r: Result<ReducerOutput, HpdError>)
    ensures
        yields(r, defaults_restored(*state, *device_limits, *config)),
{
    let mut a = match set_preset(state, TdpPreset::Balanced, device_limits, config) {
        Ok(a) => a,
        Err(e) => {
            return Err(e);
        },
    };
    let mut b = set_profile(&a.new_state, ProfileName::Performance);
    let mut c = set_charge(&b.new_state, DEFAULT_CHARGE_THRESHOLD);
    let mut d = release_fans(&c.new_state);
    let mut e = release_gpu_clock(&d.new_state);
    let mut effects: Vec<Effect> = Vec::new();
    effects.append(&mut a.effects);
    effects.append(&mut b.effects);
    effects.append(&mut c.effects);
    effects.append(&mut d.effects);
    effects.append(&mut e.effects);
    Ok(ReducerOutput { new_state: e.new_state, effects: collapse_persist(&effects) })
}

/// `effects` with one `PersistState` at the end in place of any among them.
fn collapse_persist(effects: &Vec<Effect>) -> (r: Vec<Effect>)
    ensures
        r@ == persist_once(effects@),
{
    let mut kept: Vec<Effect> = Vec::new();
    let mut changed = false;
    let mut i: usize = 0;
    while i < effects.len()
        invariant
            i <= effects.len(),
            kept@ == without_persist(effects@.take(i as int)),
            changed <==> persists(effects@.take(i as int)),
        decreases effects.len() - i,
    {
        let ghost before = effects@.take(i as int);
        let ghost upto = effects@.take(i + 1);
        proof {
            assert(upto.drop_last() =~= before);
            assert(upto.last() == effects@[i as int]);
            if persists(before) {
                let k = choose|k: int| 0 <= k < before.len() && #[trigger] before[k] is PersistState;
                assert(upto[k] is PersistState);
            }
        }
        match &effects[i] {
            Effect::PersistState => {
                changed = true;
                assert(upto[i as int] is PersistState);
            },
            effect => {
                kept.push(effect.clone());
                proof {
                    if persists(upto) {
                        let k = choose|k: int|
                            0 <= k < upto.len() && #[trigger] upto[k] is PersistState;
                        assert(before[k] is PersistState);
                    }
                }
            },
        }
        i = i + 1;
    }
    assert(effects@.take(i as int) =~= effects@);
    if changed {
        kept.push(Effect::PersistState);
    }
    assert(kept@ =~= persist_once(effects@));
    kept
}

} // verus!
