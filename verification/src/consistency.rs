//! The hardware is kept in line with the state: what the effects of a
//! transition leave it holding is what the new state says.

use crate::charge::DEFAULT_CHARGE_THRESHOLD;
use crate::effect::Effect;
use crate::executor::{Step, StepOutcome};
use crate::executor;
use crate::error::HpdError;
use crate::fan_curve::{FanCurvePreset, FanCurveSelection};
use crate::gpu_clock::{GpuClockRange, GpuClockSelection};
use crate::inference;
use crate::power::{PowerEnvelopeLimits, PowerEnvelopeTarget};
use crate::profile::{ProfileName, RuntimeConfig, TdpPreset};
use crate::reducer::Outcome;
use crate::reducer;
use crate::state::{DcSnapshot, ProfileState};
use crate::transition::Transition;
use crate::units::PowerMilliwatts;
use vstd::prelude::*;

verus! {

/// What the hardware holds. Fans and GPU clock hold nothing while they are with
/// the firmware.
pub struct Held {
    pub target: PowerEnvelopeTarget,
    pub profile: ProfileName,
    pub charge: u8,
    pub curve: Option<FanCurveSelection>,
    pub clock: Option<GpuClockSelection>,
}

/// What the hardware holds once it has taken an effect.
pub open spec fn taken(held: Held, effect: Effect) -> Held {
    match effect {
        Effect::ApplyPowerEnvelope(target) => Held { target, ..held },
        Effect::ApplyPlatformProfile(profile) => Held { profile, ..held },
        Effect::ApplyChargeThreshold(charge) => Held { charge, ..held },
        Effect::ApplyFanCurve(selection) => Held { curve: Some(selection), ..held },
        Effect::ResetFanCurve => Held { curve: None, ..held },
        Effect::ApplyGpuClockRange(selection) => Held { clock: Some(selection), ..held },
        Effect::ResetGpuClocks => Held { clock: None, ..held },
        Effect::PersistState => held,
    }
}

/// What the hardware holds once it has taken an effect, where its firmware drops
/// the fan curve at every switch of the platform profile.
pub open spec fn taken_by_forgetful(held: Held, effect: Effect) -> Held {
    match effect {
        Effect::ApplyPlatformProfile(profile) => Held { profile, curve: None, ..held },
        _ => taken(held, effect),
    }
}

/// What the hardware holds once it has taken each effect in turn.
pub open spec fn all_taken(held: Held, effects: Seq<Effect>, forgetful: bool) -> Held
    decreases effects.len(),
{
    if effects.len() == 0 {
        held
    } else {
        let before = all_taken(held, effects.drop_last(), forgetful);
        if forgetful {
            taken_by_forgetful(before, effects.last())
        } else {
            taken(before, effects.last())
        }
    }
}

/// Whether the hardware holds what the state says.
pub open spec fn in_line(held: Held, state: ProfileState) -> bool {
    &&& held.target == state.power_target
    &&& held.profile.same(state.active_profile)
    &&& held.charge == state.charge_end_threshold
    &&& held.curve == state.active_fan_curve
    &&& held.clock == state.active_gpu_clock
}

/// Whether a transition brings the levers of a snapshot back, with another
/// platform profile but with the fan curve that is in force already.
pub open spec fn keeps_the_curve_over_a_switch(state: ProfileState, transition: Transition) -> bool {
    &&& match transition {
        Transition::AcPowerChanged(plugged) => state.is_ac_connected && !plugged,
        Transition::SystemResumed => !state.pinned(),
        Transition::SetAcMaxPerformance(enabled) => state.pinned() && !enabled,
        _ => false,
    }
    &&& state.last_dc_state matches Some(snapshot) && restores_only_the_profile(state, snapshot)
}

/// Whether a snapshot has another platform profile, but the fan curve that is in
/// force already.
pub open spec fn restores_only_the_profile(state: ProfileState, snapshot: DcSnapshot) -> bool {
    &&& !state.active_profile.same(snapshot.active_profile)
    &&& state.active_fan_curve is Some
    &&& state.active_fan_curve == snapshot.active_fan_curve
}

proof fn lemma_one(held: Held, effect: Effect, forgetful: bool)
    ensures
        all_taken(held, seq![effect], forgetful) == (if forgetful {
            taken_by_forgetful(held, effect)
        } else {
            taken(held, effect)
        }),
{
    let one = seq![effect];
    assert(one.drop_last() =~= Seq::empty());
    assert(all_taken(held, Seq::empty(), forgetful) == held);
}

proof fn lemma_both(held: Held, a: Seq<Effect>, b: Seq<Effect>, forgetful: bool)
    ensures
        all_taken(held, a + b, forgetful) == all_taken(
            all_taken(held, a, forgetful),
            b,
            forgetful,
        ),
    decreases b.len(),
{
    if b.len() == 0 {
        assert(a + b =~= a);
    } else {
        lemma_both(held, a, b.drop_last(), forgetful);
        assert((a + b).drop_last() =~= a + b.drop_last());
        assert((a + b).last() == b.last());
    }
}

proof fn lemma_maybe(held: Held, condition: bool, effect: Effect, forgetful: bool)
    ensures
        all_taken(held, reducer::only_if(condition, effect), forgetful) == (if !condition {
            held
        } else if forgetful {
            taken_by_forgetful(held, effect)
        } else {
            taken(held, effect)
        }),
{
    if condition {
        lemma_one(held, effect, forgetful);
    }
}

/// Keeping the state on disk leaves the hardware alone.
proof fn lemma_without_persist(held: Held, effects: Seq<Effect>, forgetful: bool)
    ensures
        all_taken(held, reducer::without_persist(effects), forgetful) == all_taken(
            held,
            effects,
            forgetful,
        ),
    decreases effects.len(),
{
    if effects.len() > 0 {
        let rest = effects.drop_last();
        lemma_without_persist(held, rest, forgetful);
        if !(effects.last() is PersistState) {
            let shorter = reducer::without_persist(rest);
            assert(shorter.push(effects.last()).drop_last() =~= shorter);
        }
    }
}

proof fn lemma_persist_once(held: Held, effects: Seq<Effect>, forgetful: bool)
    ensures
        all_taken(held, reducer::persist_once(effects), forgetful) == all_taken(
            held,
            effects,
            forgetful,
        ),
{
    let kept = reducer::only_if(reducer::persists(effects), Effect::PersistState);
    lemma_without_persist(held, effects, forgetful);
    lemma_both(held, reducer::without_persist(effects), kept, forgetful);
    lemma_maybe(
        all_taken(held, effects, forgetful),
        reducer::persists(effects),
        Effect::PersistState,
        forgetful,
    );
}

proof fn lemma_pair(held: Held, a: Effect, b: Effect, forgetful: bool)
    ensures
        all_taken(held, seq![a, b], forgetful) == all_taken(
            all_taken(held, seq![a], forgetful),
            seq![b],
            forgetful,
        ),
{
    lemma_both(held, seq![a], seq![b], forgetful);
    assert(seq![a] + seq![b] =~= seq![a, b]);
}

proof fn lemma_triple(held: Held, a: Effect, b: Effect, c: Effect, forgetful: bool)
    ensures
        all_taken(held, seq![a, b, c], forgetful) == all_taken(
            all_taken(all_taken(held, seq![a], forgetful), seq![b], forgetful),
            seq![c],
            forgetful,
        ),
{
    lemma_both(held, seq![a, b], seq![c], forgetful);
    lemma_pair(held, a, b, forgetful);
    assert(seq![a, b] + seq![c] =~= seq![a, b, c]);
}

proof fn lemma_retargeted(
    held: Held,
    state: ProfileState,
    target: PowerEnvelopeTarget,
    limits: PowerEnvelopeLimits,
    config: RuntimeConfig,
    forgetful: bool,
)
    requires
        in_line(held, state),
    ensures
        ({
            let outcome = reducer::retargeted(state, target, limits, config);
            in_line(all_taken(held, outcome.effects, forgetful), outcome.state)
        }),
{
    let outcome = reducer::retargeted(state, target, limits, config);
    if state.power_target != target {
        let tier = inference::tier_of(target.spl.0, limits, config.profile_thresholds);
        let a = seq![Effect::ApplyPowerEnvelope(target)];
        let curve = Effect::ApplyFanCurve(FanCurveSelection::Preset(tier));
        let clock = Effect::ApplyGpuClockRange(GpuClockSelection::Preset(tier));
        let moves_curve = outcome.state.active_fan_curve != state.active_fan_curve;
        let moves_clock = outcome.state.active_gpu_clock != state.active_gpu_clock;
        let b = reducer::only_if(moves_curve, curve);
        let c = reducer::only_if(moves_clock, clock);
        let d = seq![Effect::PersistState];
        let h1 = all_taken(held, a, forgetful);
        let h2 = all_taken(h1, b, forgetful);
        let h3 = all_taken(h2, c, forgetful);
        lemma_one(held, Effect::ApplyPowerEnvelope(target), forgetful);
        lemma_maybe(h1, moves_curve, curve, forgetful);
        lemma_maybe(h2, moves_clock, clock, forgetful);
        lemma_one(h3, Effect::PersistState, forgetful);
        lemma_both(held, a, b, forgetful);
        lemma_both(held, a + b, c, forgetful);
        lemma_both(held, a + b + c, d, forgetful);
    }
}

proof fn lemma_profile_set(held: Held, state: ProfileState, profile: ProfileName, forgetful: bool)
    requires
        in_line(held, state),
    ensures
        ({
            let outcome = reducer::profile_set(state, profile);
            in_line(all_taken(held, outcome.effects, forgetful), outcome.state)
        }),
{
    if !state.active_profile.same(profile) {
        let a = seq![Effect::ApplyPlatformProfile(profile)];
        let b = reducer::curve_reasserted(state);
        let c = seq![Effect::PersistState];
        let h1 = all_taken(held, a, forgetful);
        let h2 = all_taken(h1, b, forgetful);
        lemma_one(held, Effect::ApplyPlatformProfile(profile), forgetful);
        if let Some(selection) = state.active_fan_curve {
            lemma_one(h1, Effect::ApplyFanCurve(selection), forgetful);
        }
        lemma_one(h2, Effect::PersistState, forgetful);
        lemma_both(held, a, b, forgetful);
        lemma_both(held, a + b, c, forgetful);
    }
}

/// An effect that is followed by keeping the state.
proof fn lemma_then_kept(held: Held, effect: Effect, forgetful: bool)
    ensures
        all_taken(held, seq![effect, Effect::PersistState], forgetful) == (if forgetful {
            taken_by_forgetful(held, effect)
        } else {
            taken(held, effect)
        }),
{
    lemma_pair(held, effect, Effect::PersistState, forgetful);
    lemma_one(held, effect, forgetful);
    lemma_one(all_taken(held, seq![effect], forgetful), Effect::PersistState, forgetful);
}

proof fn lemma_charge_set(held: Held, state: ProfileState, threshold: u8, forgetful: bool)
    requires
        in_line(held, state),
    ensures
        ({
            let outcome = reducer::charge_set(state, threshold);
            in_line(all_taken(held, outcome.effects, forgetful), outcome.state)
        }),
{
    lemma_then_kept(held, Effect::ApplyChargeThreshold(threshold), forgetful);
}

proof fn lemma_fan_released(held: Held, state: ProfileState, forgetful: bool)
    requires
        in_line(held, state),
    ensures
        ({
            let outcome = reducer::fan_released(state);
            in_line(all_taken(held, outcome.effects, forgetful), outcome.state)
        }),
{
    lemma_then_kept(held, Effect::ResetFanCurve, forgetful);
}

proof fn lemma_clock_released(held: Held, state: ProfileState, forgetful: bool)
    requires
        in_line(held, state),
    ensures
        ({
            let outcome = reducer::clock_released(state);
            in_line(all_taken(held, outcome.effects, forgetful), outcome.state)
        }),
{
    lemma_then_kept(held, Effect::ResetGpuClocks, forgetful);
}

/// Going to maximum performance needs nothing of what the hardware held, but of
/// the charge limit and of a GPU clock that is with the firmware.
proof fn lemma_maximized(
    held: Held,
    state: ProfileState,
    limits: PowerEnvelopeLimits,
    config: RuntimeConfig,
    forgetful: bool,
)
    ensures
        ({
            let outcome = reducer::maximized(state, limits, config);
            let after = all_taken(held, outcome.effects, forgetful);
            &&& after.target == outcome.state.power_target
            &&& after.profile == outcome.state.active_profile
            &&& after.charge == held.charge
            &&& after.curve == outcome.state.active_fan_curve
            &&& after.clock == if state.active_gpu_clock is Some {
                outcome.state.active_gpu_clock
            } else {
                held.clock
            }
        }),
{
    let outcome = reducer::maximized(state, limits, config);
    let target = reducer::boosted(limits.spl_max, limits, config);
    let a = Effect::ApplyPowerEnvelope(target);
    let b = Effect::ApplyPlatformProfile(ProfileName::Performance);
    let c = Effect::ApplyFanCurve(
        FanCurveSelection::Preset(FanCurvePreset::Aggressive),
    );
    let d = Effect::ApplyGpuClockRange(
        GpuClockSelection::Preset(FanCurvePreset::Aggressive),
    );
    let clocked = state.active_gpu_clock is Some;
    let h1 = all_taken(held, seq![a], forgetful);
    let h2 = all_taken(h1, seq![b], forgetful);
    let h3 = all_taken(h2, seq![c], forgetful);
    lemma_one(held, a, forgetful);
    lemma_one(h1, b, forgetful);
    lemma_one(h2, c, forgetful);
    lemma_triple(held, a, b, c, forgetful);
    lemma_maybe(h3, clocked, d, forgetful);
    lemma_both(held, seq![a, b, c], reducer::only_if(clocked, d), forgetful);
}

proof fn lemma_restored(
    held: Held,
    state: ProfileState,
    snapshot: DcSnapshot,
    forgetful: bool,
)
    requires
        in_line(held, state),
        forgetful ==> !restores_only_the_profile(state, snapshot),
    ensures
        ({
            let outcome = reducer::restored(state, snapshot);
            in_line(all_taken(held, outcome.effects, forgetful), outcome.state)
        }),
{
    let moves_target = state.power_target != snapshot.power_target;
    let moves_profile = !state.active_profile.same(snapshot.active_profile);
    let moves_curve = state.active_fan_curve != snapshot.active_fan_curve;
    let moves_clock = state.active_gpu_clock != snapshot.active_gpu_clock;
    let ea = Effect::ApplyPowerEnvelope(snapshot.power_target);
    let eb = Effect::ApplyPlatformProfile(snapshot.active_profile);
    let ec = reducer::curve_effect(snapshot.active_fan_curve);
    let ed = reducer::clock_effect(snapshot.active_gpu_clock);
    let a = reducer::only_if(moves_target, ea);
    let b = reducer::only_if(moves_profile, eb);
    let c = reducer::only_if(moves_curve, ec);
    let d = reducer::only_if(moves_clock, ed);
    let e = seq![Effect::PersistState];
    let h1 = all_taken(held, a, forgetful);
    let h2 = all_taken(h1, b, forgetful);
    let h3 = all_taken(h2, c, forgetful);
    let h4 = all_taken(h3, d, forgetful);
    lemma_maybe(held, moves_target, ea, forgetful);
    lemma_maybe(h1, moves_profile, eb, forgetful);
    lemma_maybe(h2, moves_curve, ec, forgetful);
    lemma_maybe(h3, moves_clock, ed, forgetful);
    lemma_one(h4, Effect::PersistState, forgetful);
    lemma_both(held, a, b, forgetful);
    lemma_both(held, a + b, c, forgetful);
    lemma_both(held, a + b + c, d, forgetful);
    lemma_both(held, a + b + c + d, e, forgetful);
}

proof fn lemma_resumed(
    held: Held,
    state: ProfileState,
    limits: PowerEnvelopeLimits,
    config: RuntimeConfig,
    forgetful: bool,
)
    requires
        state.pinned() || state.last_dc_state is None,
    ensures
        ({
            let outcome = reducer::resumed(state, limits, config);
            let after = all_taken(held, outcome.effects, forgetful);
            &&& after.target == outcome.state.power_target
            &&& after.profile == outcome.state.active_profile
            &&& after.charge == outcome.state.charge_end_threshold
            &&& outcome.state.active_fan_curve is Some ==> after.curve
                == outcome.state.active_fan_curve
            &&& outcome.state.active_fan_curve is None ==> after.curve == held.curve || forgetful
                && after.curve is None
            &&& outcome.state.active_gpu_clock is Some ==> after.clock
                == outcome.state.active_gpu_clock
            &&& outcome.state.active_gpu_clock is None ==> after.clock == held.clock
        }),
{
    let charge = Effect::ApplyChargeThreshold(state.charge_end_threshold);
    if state.pinned() {
        let pinned = reducer::maximized(state, limits, config);
        lemma_maximized(held, state, limits, config, forgetful);
        let h = all_taken(held, pinned.effects, forgetful);
        lemma_both(held, pinned.effects, seq![charge, Effect::PersistState], forgetful);
        lemma_then_kept(h, charge, forgetful);
    } else {
        let a = Effect::ApplyPowerEnvelope(state.power_target);
        let b = Effect::ApplyPlatformProfile(state.active_profile);
        let h1 = all_taken(held, seq![a], forgetful);
        let h2 = all_taken(h1, seq![b], forgetful);
        let h3 = all_taken(h2, seq![charge], forgetful);
        lemma_one(held, a, forgetful);
        lemma_one(h1, b, forgetful);
        lemma_one(h2, charge, forgetful);
        lemma_triple(held, a, b, charge, forgetful);
        let first = seq![a, b, charge];
        let curve = reducer::curve_reasserted(state);
        let h4 = all_taken(h3, curve, forgetful);
        if let Some(selection) = state.active_fan_curve {
            lemma_one(h3, Effect::ApplyFanCurve(selection), forgetful);
        }
        lemma_both(held, first, curve, forgetful);
        match state.active_gpu_clock {
            Some(selection) => {
                let c = Effect::ResetGpuClocks;
                let d = Effect::ApplyGpuClockRange(selection);
                lemma_pair(h4, c, d, forgetful);
                lemma_one(h4, c, forgetful);
                lemma_one(all_taken(h4, seq![c], forgetful), d, forgetful);
                lemma_both(held, first + curve, seq![c, d], forgetful);
            },
            None => {
                lemma_both(held, first + curve, Seq::empty(), forgetful);
            },
        }
    }
}

proof fn lemma_resumed_in_line(
    held: Held,
    state: ProfileState,
    limits: PowerEnvelopeLimits,
    config: RuntimeConfig,
    forgetful: bool,
)
    requires
        in_line(held, state),
        forgetful ==> !keeps_the_curve_over_a_switch(state, Transition::SystemResumed),
    ensures
        ({
            let outcome = reducer::resumed(state, limits, config);
            in_line(all_taken(held, outcome.effects, forgetful), outcome.state)
        }),
{
    if state.pinned() || state.last_dc_state is None {
        lemma_resumed(held, state, limits, config, forgetful);
    } else if let Some(snapshot) = state.last_dc_state {
        let back = reducer::restored(state, snapshot);
        let charge = Effect::ApplyChargeThreshold(state.charge_end_threshold);
        lemma_restored(held, state, snapshot, forgetful);
        lemma_both(held, back.effects, seq![charge], forgetful);
        lemma_one(all_taken(held, back.effects, forgetful), charge, forgetful);
    }
}

proof fn lemma_fan_followed(
    held: Held,
    state: ProfileState,
    limits: PowerEnvelopeLimits,
    config: RuntimeConfig,
    forgetful: bool,
)
    requires
        in_line(held, state),
    ensures
        ({
            let outcome = reducer::fan_followed(state, limits, config);
            in_line(all_taken(held, outcome.effects, forgetful), outcome.state)
        }),
{
    let tier = inference::tier_of(state.power_target.spl.0, limits, config.profile_thresholds);
    lemma_then_kept(held, Effect::ApplyFanCurve(FanCurveSelection::Preset(tier)), forgetful);
}

proof fn lemma_clock_followed(
    held: Held,
    state: ProfileState,
    limits: PowerEnvelopeLimits,
    config: RuntimeConfig,
    forgetful: bool,
)
    requires
        in_line(held, state),
    ensures
        ({
            let outcome = reducer::clock_followed(state, limits, config);
            in_line(all_taken(held, outcome.effects, forgetful), outcome.state)
        }),
{
    let tier = inference::tier_of(state.power_target.spl.0, limits, config.profile_thresholds);
    lemma_then_kept(held, Effect::ApplyGpuClockRange(GpuClockSelection::Preset(tier)), forgetful);
}

proof fn lemma_defaults_restored(
    held: Held,
    state: ProfileState,
    limits: PowerEnvelopeLimits,
    config: RuntimeConfig,
    forgetful: bool,
)
    requires
        in_line(held, state),
    ensures
        reducer::defaults_restored(state, limits, config) matches Ok(outcome) ==> in_line(
            all_taken(held, outcome.effects, forgetful),
            outcome.state,
        ),
{
    if let Ok(a) = reducer::preset_set(state, TdpPreset::Balanced, limits, config) {
        lemma_preset_set(held, state, TdpPreset::Balanced, limits, config, forgetful);
        let b = reducer::profile_set(a.state, ProfileName::Performance);
        let c = reducer::charge_set(b.state, DEFAULT_CHARGE_THRESHOLD);
        let d = reducer::fan_released(c.state);
        let e = reducer::clock_released(d.state);
        let h1 = all_taken(held, a.effects, forgetful);
        let h2 = all_taken(h1, b.effects, forgetful);
        let h3 = all_taken(h2, c.effects, forgetful);
        let h4 = all_taken(h3, d.effects, forgetful);
        lemma_profile_set(h1, a.state, ProfileName::Performance, forgetful);
        lemma_charge_set(h2, b.state, DEFAULT_CHARGE_THRESHOLD, forgetful);
        lemma_fan_released(h3, c.state, forgetful);
        lemma_clock_released(h4, d.state, forgetful);
        lemma_both(held, a.effects, b.effects, forgetful);
        lemma_both(held, a.effects + b.effects, c.effects, forgetful);
        lemma_both(held, a.effects + b.effects + c.effects, d.effects, forgetful);
        lemma_both(
            held,
            a.effects + b.effects + c.effects + d.effects,
            e.effects,
            forgetful,
        );
        lemma_persist_once(
            held,
            a.effects + b.effects + c.effects + d.effects + e.effects,
            forgetful,
        );
    }
}

proof fn lemma_preset_set(
    held: Held,
    state: ProfileState,
    preset: TdpPreset,
    limits: PowerEnvelopeLimits,
    config: RuntimeConfig,
    forgetful: bool,
)
    requires
        in_line(held, state),
    ensures
        reducer::preset_set(state, preset, limits, config) matches Ok(outcome) ==> in_line(
            all_taken(held, outcome.effects, forgetful),
            outcome.state,
        ),
{
    lemma_spl_set(held, state, reducer::preset_watts(preset, limits), limits, config, forgetful);
}

proof fn lemma_spl_set(
    held: Held,
    state: ProfileState,
    watts: u32,
    limits: PowerEnvelopeLimits,
    config: RuntimeConfig,
    forgetful: bool,
)
    requires
        in_line(held, state),
    ensures
        reducer::spl_set(state, watts, limits, config) matches Ok(outcome) ==> in_line(
            all_taken(held, outcome.effects, forgetful),
            outcome.state,
        ),
{
    let target = reducer::boosted(
        PowerMilliwatts((watts * 1000) as u32),
        limits,
        config,
    );
    lemma_retargeted(held, state, target, limits, config, forgetful);
}

proof fn lemma_charger(
    held: Held,
    state: ProfileState,
    plugged: bool,
    limits: PowerEnvelopeLimits,
    config: RuntimeConfig,
    forgetful: bool,
)
    requires
        in_line(held, state),
        forgetful ==> !keeps_the_curve_over_a_switch(state, Transition::AcPowerChanged(plugged)),
    ensures
        reducer::next(state, Transition::AcPowerChanged(plugged), limits, config) matches Ok(
            outcome,
        ) ==> in_line(all_taken(held, outcome.effects, forgetful), outcome.state),
{
    if state.is_ac_connected == plugged {
    } else if plugged {
        let pinned = reducer::maximized(state, limits, config);
        lemma_maximized(held, state, limits, config, forgetful);
        let h = all_taken(held, pinned.effects, forgetful);
        lemma_both(held, pinned.effects, seq![Effect::PersistState], forgetful);
        lemma_one(h, Effect::PersistState, forgetful);
    } else {
        match state.last_dc_state {
            Some(snapshot) => {
                lemma_restored(held, state, snapshot, forgetful);
            },
            None => {
                let view = ProfileState {
                    is_ac_connected: false,
                    fan_follows_tdp: true,
                    ..state
                };
                lemma_preset_set(held, view, TdpPreset::Balanced, limits, config, forgetful);
            },
        }
    }
}

proof fn lemma_lock_set(
    held: Held,
    state: ProfileState,
    enabled: bool,
    limits: PowerEnvelopeLimits,
    config: RuntimeConfig,
    forgetful: bool,
)
    requires
        in_line(held, state),
        forgetful ==> !keeps_the_curve_over_a_switch(
            state,
            Transition::SetAcMaxPerformance(enabled),
        ),
    ensures
        ({
            let outcome = reducer::lock_set(state, enabled, limits, config);
            in_line(all_taken(held, outcome.effects, forgetful), outcome.state)
        }),
{
    lemma_one(held, Effect::PersistState, forgetful);
    if state.ac_max_performance != enabled && state.is_ac_connected {
        if enabled {
            let pinned = reducer::maximized(state, limits, config);
            lemma_maximized(held, state, limits, config, forgetful);
            let h = all_taken(held, pinned.effects, forgetful);
            lemma_both(held, pinned.effects, seq![Effect::PersistState], forgetful);
            lemma_one(h, Effect::PersistState, forgetful);
        } else if let Some(snapshot) = state.last_dc_state {
            lemma_restored(held, state, snapshot, forgetful);
        }
    }
}

// ---------------------------------------------------------------------------
// Laws
// ---------------------------------------------------------------------------

/// Hardware that holds what the state says, and takes every effect, holds what
/// the new state says after any request or event. On hardware that drops the fan
/// curve at every switch of the platform profile this holds too, but where
/// levers are brought back that differ in the profile and not in the curve.
pub proof fn effects_keep_the_hardware_in_line(
    held: Held,
    state: ProfileState,
    transition: Transition,
    limits: PowerEnvelopeLimits,
    config: RuntimeConfig,
    forgetful: bool,
)
    requires
        in_line(held, state),
        !transition.is_sync(),
        forgetful ==> !keeps_the_curve_over_a_switch(state, transition),
    ensures
        reducer::next(state, transition, limits, config) matches Ok(outcome) ==> in_line(
            all_taken(held, outcome.effects, forgetful),
            outcome.state,
        ),
{
    if !(state.pinned() && transition.moves_a_lever()) {
        match transition {
            Transition::SetPreset(preset) => lemma_preset_set(
                held,
                state,
                preset,
                limits,
                config,
                forgetful,
            ),
            Transition::SetSpl(watts) => lemma_spl_set(
                held,
                state,
                watts,
                limits,
                config,
                forgetful,
            ),
            Transition::SetEnvelope(target) => lemma_retargeted(
                held,
                state,
                target,
                limits,
                config,
                forgetful,
            ),
            Transition::SetProfile(profile) => lemma_profile_set(held, state, profile, forgetful),
            Transition::ChargeThresholdChanged(threshold) => lemma_charge_set(
                held,
                state,
                threshold,
                forgetful,
            ),
            Transition::ResetFanCurve => lemma_fan_released(held, state, forgetful),
            Transition::ResetGpuClocks => lemma_clock_released(held, state, forgetful),
            Transition::AcPowerChanged(plugged) => lemma_charger(
                held,
                state,
                plugged,
                limits,
                config,
                forgetful,
            ),
            Transition::SetAcMaxPerformance(enabled) => lemma_lock_set(
                held,
                state,
                enabled,
                limits,
                config,
                forgetful,
            ),
            Transition::RestoreDefaults => lemma_defaults_restored(
                held,
                state,
                limits,
                config,
                forgetful,
            ),
            Transition::SystemResumed => lemma_resumed_in_line(
                held,
                state,
                limits,
                config,
                forgetful,
            ),
            Transition::Shutdown => lemma_one(held, Effect::PersistState, forgetful),
            Transition::SetCoolingLevel(preset) => lemma_then_kept(
                held,
                Effect::ApplyFanCurve(FanCurveSelection::Preset(preset)),
                forgetful,
            ),
            Transition::SetCustomFanCurve { cpu, gpu } => lemma_then_kept(
                held,
                Effect::ApplyFanCurve(FanCurveSelection::Custom { cpu, gpu }),
                forgetful,
            ),
            Transition::SetGpuClockRange { min_mhz, max_mhz } => lemma_then_kept(
                held,
                Effect::ApplyGpuClockRange(
                    GpuClockSelection::Custom(GpuClockRange { min_mhz, max_mhz }),
                ),
                forgetful,
            ),
            Transition::EnableFanAuto => lemma_fan_followed(
                held,
                state,
                limits,
                config,
                forgetful,
            ),
            Transition::EnableGpuAutoFollow => lemma_clock_followed(
                held,
                state,
                limits,
                config,
                forgetful,
            ),
            _ => {},
        }
    }
}

/// Whatever the hardware held, after a start or a wake-up it holds what the
/// state says of every lever that is managed, unless levers are brought back
/// that were kept while AC pinned them: then only what differs is programmed.
pub proof fn resuming_brings_the_hardware_in_line(
    held: Held,
    state: ProfileState,
    limits: PowerEnvelopeLimits,
    config: RuntimeConfig,
    forgetful: bool,
)
    requires
        state.pinned() || state.last_dc_state is None,
    ensures
        reducer::next(state, Transition::SystemResumed, limits, config) matches Ok(outcome) && ({
            let after = all_taken(held, outcome.effects, forgetful);
            &&& after.target == outcome.state.power_target
            &&& after.profile == outcome.state.active_profile
            &&& after.charge == outcome.state.charge_end_threshold
            &&& outcome.state.active_fan_curve is Some ==> after.curve
                == outcome.state.active_fan_curve
            &&& outcome.state.active_gpu_clock is Some ==> after.clock
                == outcome.state.active_gpu_clock
        }),
{
    lemma_resumed(held, state, limits, config, forgetful);
}

/// The daemon stops at a request to stop and at nothing else, and then the state
/// is kept as it was, and nothing is programmed.
pub proof fn stopping_keeps_the_state(
    state: ProfileState,
    transition: Transition,
    limits: PowerEnvelopeLimits,
    config: RuntimeConfig,
    charger: Option<Result<bool, HpdError>>,
    step: Step,
    after: ProfileState,
)
    requires
        executor::stepped(state, transition, limits, config, charger, step, after),
        charger is None,
    ensures
        step.stop <==> transition is Shutdown,
        transition is Shutdown ==> {
            &&& after == (ProfileState { ac_locked: state.pinned(), ..state })
            &&& step.outcome matches StepOutcome::Applied(effects)
            &&& effects@ == seq![Effect::PersistState]
        },
{
}

} // verus!
