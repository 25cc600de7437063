//! What holds over any run of the daemon, stated over `next`.

use crate::charge::DEFAULT_CHARGE_THRESHOLD;
use crate::effect::Effect;
use crate::fan_curve::{FanCurvePreset, FanCurveSelection};
use crate::gpu_clock::{GpuClockRange, GpuClockSelection};
use crate::inference;
use crate::invariants;
use crate::power::{PowerEnvelopeLimits, PowerEnvelopeTarget};
use crate::profile::{ProfileName, RuntimeConfig, TdpPreset};
use crate::reducer::Outcome;
use crate::reducer;
use crate::state::{DcSnapshot, ProfileState};
use crate::transition::Transition;
use crate::units::PowerMilliwatts;
use vstd::prelude::*;

verus! {

/// While AC pins maximum performance, no request moves a lever: the state stays
/// as it is and nothing is programmed.
pub proof fn pinned_levers_do_not_move(
    state: ProfileState,
    transition: Transition,
    limits: PowerEnvelopeLimits,
    config: RuntimeConfig,
)
    requires
        state.pinned(),
        transition.moves_a_lever(),
    ensures
        reducer::next(state, transition, limits, config) == Ok::<Outcome, Seq<char>>(reducer::unchanged(state)),
{
}

/// The charge limit can be changed at any time, on AC too.
pub proof fn charge_limit_stays_editable(
    state: ProfileState,
    threshold: u8,
    limits: PowerEnvelopeLimits,
    config: RuntimeConfig,
)
    ensures
        reducer::next(state, Transition::ChargeThresholdChanged(threshold), limits, config) == Ok::<
            Outcome,
            Seq<char>,
        >(reducer::charge_set(state, threshold)),
        reducer::charge_set(state, threshold).state.charge_end_threshold == threshold,
{
}

/// Plugging the charger in and out again leaves every lever where it was.
pub proof fn plug_and_unplug_restores_the_levers(
    state: ProfileState,
    limits: PowerEnvelopeLimits,
    config: RuntimeConfig,
)
    requires
        !state.is_ac_connected,
        state.ac_max_performance,
    ensures
        reducer::next(state, Transition::AcPowerChanged(true), limits, config) matches Ok(on_ac)
            && on_ac.state.pinned() && (reducer::next(
            on_ac.state,
            Transition::AcPowerChanged(false),
            limits,
            config,
        ) matches Ok(back) && back.state == (ProfileState { last_dc_state: None, ..state })),
{
}

/// Turning the lock on while on AC and off again leaves every lever where it
/// was.
pub proof fn lock_and_unlock_restores_the_levers(
    state: ProfileState,
    limits: PowerEnvelopeLimits,
    config: RuntimeConfig,
)
    requires
        state.is_ac_connected,
        !state.ac_max_performance,
        state.last_dc_state is None,
    ensures
        reducer::next(state, Transition::SetAcMaxPerformance(true), limits, config) matches Ok(on)
            && on.state.pinned() && (reducer::next(
            on.state,
            Transition::SetAcMaxPerformance(false),
            limits,
            config,
        ) matches Ok(off) && off.state == state),
{
}

/// With the lock off, plugging in and out moves nothing.
pub proof fn without_the_lock_ac_moves_nothing(
    state: ProfileState,
    plugged: bool,
    limits: PowerEnvelopeLimits,
    config: RuntimeConfig,
)
    requires
        !state.ac_max_performance,
        plugged || state.last_dc_state is None,
    ensures
        reducer::next(state, Transition::AcPowerChanged(plugged), limits, config) == Ok::<
            Outcome,
            Seq<char>,
        >(reducer::unchanged(ProfileState { is_ac_connected: plugged, ..state })),
{
}

/// An edge of the charger that is no edge changes nothing, and after an edge
/// that is accepted the state knows it.
pub proof fn charger_edges_are_tracked(
    state: ProfileState,
    plugged: bool,
    limits: PowerEnvelopeLimits,
    config: RuntimeConfig,
)
    ensures
        state.is_ac_connected == plugged ==> reducer::next(
            state,
            Transition::AcPowerChanged(plugged),
            limits,
            config,
        ) == Ok::<Outcome, Seq<char>>(reducer::unchanged(state)),
        reducer::next(state, Transition::AcPowerChanged(plugged), limits, config) matches Ok(o)
            ==> o.state.is_ac_connected == plugged,
{
}

/// Learning what the hardware holds asks nothing of it.
pub proof fn syncing_has_no_effects(
    state: ProfileState,
    transition: Transition,
    limits: PowerEnvelopeLimits,
    config: RuntimeConfig,
)
    requires
        transition.is_sync(),
    ensures
        reducer::next(state, transition, limits, config) matches Ok(o) && o.effects.len() == 0,
{
}

/// Learning what the hardware holds brings the state in line with it, and
/// changes nothing else.
pub proof fn syncing_brings_the_state_in_line(
    state: ProfileState,
    transition: Transition,
    limits: PowerEnvelopeLimits,
    config: RuntimeConfig,
)
    requires
        transition.is_sync(),
    ensures
        reducer::next(state, transition, limits, config) matches Ok(o) && o.state == (
        match transition {
            Transition::SyncPowerTarget(power_target) => ProfileState { power_target, ..state },
            Transition::SyncPlatformProfile(active_profile) => ProfileState {
                active_profile,
                ..state
            },
            Transition::SyncChargeThreshold(charge_end_threshold) => ProfileState {
                charge_end_threshold,
                ..state
            },
            Transition::SyncFanCurve(active_fan_curve) => ProfileState {
                active_fan_curve,
                ..state
            },
            Transition::SyncGpuClockRange(range) => ProfileState {
                active_gpu_clock: match range {
                    Some(range) => Some(GpuClockSelection::Custom(range)),
                    None => None,
                },
                ..state
            },
            _ => state,
        }),
{
}

/// A power envelope that a request moved to has its rails in order and in the
/// range of the hardware.
pub proof fn requested_envelopes_keep_the_rules(
    state: ProfileState,
    transition: Transition,
    limits: PowerEnvelopeLimits,
    config: RuntimeConfig,
)
    requires
        transition.moves_a_lever(),
    ensures
        reducer::next(state, transition, limits, config) matches Ok(o) ==> o.state.power_target
            == state.power_target || (invariants::rails_ordered(o.state.power_target) && invariants::rails_in_range(
            o.state.power_target,
            limits,
        )),
{
}

/// The envelope of a sustained limit has its rails in order, whatever the
/// hardware says of itself.
pub proof fn boosted_rails_are_ordered(
    spl: PowerMilliwatts,
    limits: PowerEnvelopeLimits,
    config: RuntimeConfig,
)
    ensures
        invariants::rails_ordered(reducer::boosted(spl, limits, config)),
        reducer::boosted(spl, limits, config).spl == spl,
        reducer::boosted(spl, limits, config).fppt is Some,
{
}

/// Whether the ranges of the rails rise from one to the next.
pub open spec fn ranges_nested(limits: PowerEnvelopeLimits) -> bool {
    &&& limits.spl_min.0 <= limits.spl_max.0 <= limits.sppt_max.0 <= limits.fppt_max.0
    &&& limits.sppt_min.0 <= limits.sppt_max.0
    &&& limits.fppt_min.0 <= limits.fppt_max.0
}

/// Where the ranges of the rails rise from one to the next, the envelope of any
/// sustained limit in range is in range: asking for such a limit succeeds.
pub proof fn sustained_limits_in_range_are_accepted(
    state: ProfileState,
    watts: u32,
    limits: PowerEnvelopeLimits,
    config: RuntimeConfig,
)
    requires
        ranges_nested(limits),
        limits.spl_min.0 <= watts * 1000 <= limits.spl_max.0,
    ensures
        invariants::rails_in_range(reducer::boosted(PowerMilliwatts((watts * 1000) as u32), limits, config), limits),
        reducer::next(state, Transition::SetSpl(watts), limits, config) is Ok,
{
}

/// Full power is in range where the ranges of the rails rise from one to the
/// next.
pub proof fn pinned_envelope_keeps_the_rules(
    limits: PowerEnvelopeLimits,
    config: RuntimeConfig,
)
    requires
        ranges_nested(limits),
    ensures
        invariants::rails_ordered(reducer::boosted(limits.spl_max, limits, config)),
        invariants::rails_in_range(reducer::boosted(limits.spl_max, limits, config), limits),
{
}

/// Whether the GPU clock was never asked for: neither now nor in what is kept
/// for later.
pub open spec fn gpu_untouched(state: ProfileState) -> bool {
    &&& state.active_gpu_clock is None
    &&& !state.gpu_follows_tdp
    &&& state.last_dc_state matches Some(snapshot) ==> snapshot.active_gpu_clock is None
        && !snapshot.gpu_follows_tdp
}

/// Whether an effect touches the GPU clock.
pub open spec fn touches_gpu(effect: Effect) -> bool {
    effect is ApplyGpuClockRange || effect is ResetGpuClocks
}

/// Whether no effect touches the GPU clock.
#[verifier::opaque]
pub open spec fn spares_gpu(effects: Seq<Effect>) -> bool {
    forall|i: int| 0 <= i < effects.len() ==> !touches_gpu(#[trigger] effects[i])
}

/// Whether no effect keeps the state.
#[verifier::opaque]
pub open spec fn keeps_nothing(effects: Seq<Effect>) -> bool {
    forall|i: int| 0 <= i < effects.len() ==> !(#[trigger] effects[i] is PersistState)
}

/// Whether at most one effect keeps the state.
#[verifier::opaque]
pub open spec fn persists_at_most_once(effects: Seq<Effect>) -> bool {
    forall|i: int, j: int|
        0 <= i < j < effects.len() ==> !(#[trigger] effects[i] is PersistState
            && #[trigger] effects[j] is PersistState)
}

/// Whether two states agree on all that is kept over restarts.
pub open spec fn same_on_disk(a: ProfileState, b: ProfileState) -> bool {
    a == (ProfileState { is_ac_connected: a.is_ac_connected, ac_locked: a.ac_locked, ..b })
}

proof fn lemma_nothing()
    ensures
        spares_gpu(Seq::empty()),
        keeps_nothing(Seq::empty()),
        persists_at_most_once(Seq::empty()),
{
    reveal(spares_gpu);
    reveal(keeps_nothing);
    reveal(persists_at_most_once);
}

proof fn lemma_one(effect: Effect)
    ensures
        !touches_gpu(effect) ==> spares_gpu(seq![effect]),
        !(effect is PersistState) ==> keeps_nothing(seq![effect]),
        persists_at_most_once(seq![effect]),
        effect is PersistState ==> reducer::persists(seq![effect]),
{
    reveal(spares_gpu);
    reveal(keeps_nothing);
    reveal(persists_at_most_once);
    assert(seq![effect][0] == effect);
}

proof fn lemma_join(a: Seq<Effect>, b: Seq<Effect>)
    ensures
        spares_gpu(a) && spares_gpu(b) ==> spares_gpu(a + b),
        keeps_nothing(a) && keeps_nothing(b) ==> keeps_nothing(a + b),
        keeps_nothing(a) && persists_at_most_once(b) ==> persists_at_most_once(a + b),
        persists_at_most_once(a) && keeps_nothing(b) ==> persists_at_most_once(a + b),
        reducer::persists(a) ==> reducer::persists(a + b),
        reducer::persists(b) ==> reducer::persists(a + b),
{
    reveal(spares_gpu);
    reveal(keeps_nothing);
    reveal(persists_at_most_once);
    if reducer::persists(a) {
        let k = choose|k: int| 0 <= k < a.len() && #[trigger] a[k] is PersistState;
        assert((a + b)[k] is PersistState);
    }
    if reducer::persists(b) {
        let k = choose|k: int| 0 <= k < b.len() && #[trigger] b[k] is PersistState;
        assert((a + b)[a.len() + k] is PersistState);
    }
}

proof fn lemma_when(condition: bool, effect: Effect)
    ensures
        !condition || !touches_gpu(effect) ==> spares_gpu(reducer::only_if(condition, effect)),
        !condition || !(effect is PersistState) ==> keeps_nothing(reducer::only_if(condition, effect)),
{
    lemma_nothing();
    lemma_one(effect);
}

proof fn lemma_pair(a: Effect, b: Effect)
    requires
        !(a is PersistState),
    ensures
        !touches_gpu(a) && !touches_gpu(b) ==> spares_gpu(seq![a, b]),
        persists_at_most_once(seq![a, b]),
        b is PersistState ==> reducer::persists(seq![a, b]),
        !(b is PersistState) ==> keeps_nothing(seq![a, b]),
{
    reveal(spares_gpu);
    reveal(keeps_nothing);
    reveal(persists_at_most_once);
    assert(seq![a, b][1] == b);
}

/// `body` followed by `PersistState` keeps the state once.
proof fn lemma_then_persist(body: Seq<Effect>)
    requires
        keeps_nothing(body),
    ensures
        persists_at_most_once(body + seq![Effect::PersistState]),
        reducer::persists(body + seq![Effect::PersistState]),
        spares_gpu(body) ==> spares_gpu(body + seq![Effect::PersistState]),
{
    lemma_one(Effect::PersistState);
    lemma_join(body, seq![Effect::PersistState]);
}

/// What every outcome owes: the state is kept at most once, and the GPU clock
/// is left alone.
spec fn orderly(state: ProfileState, o: Outcome) -> bool {
    &&& persists_at_most_once(o.effects)
    &&& gpu_untouched(state) ==> gpu_untouched(o.state) && spares_gpu(o.effects)
}

/// An outcome that also keeps every change.
spec fn tidy(state: ProfileState, o: Outcome) -> bool {
    &&& orderly(state, o)
    &&& same_on_disk(o.state, state) || reducer::persists(o.effects)
}

/// Whether unplugging with nothing to return to only lets the fans follow: the
/// envelope already is that of the balanced preset.
pub open spec fn falls_back_silently(
    state: ProfileState,
    limits: PowerEnvelopeLimits,
    config: RuntimeConfig,
) -> bool {
    &&& state.pinned()
    &&& state.last_dc_state is None
    &&& !state.fan_follows_tdp
    &&& state.power_target == reducer::boosted(
        PowerMilliwatts((reducer::preset_watts(TdpPreset::Balanced, limits) * 1000) as u32),
        limits,
        config,
    )
}

proof fn lemma_retargeted(
    state: ProfileState,
    target: PowerEnvelopeTarget,
    limits: PowerEnvelopeLimits,
    config: RuntimeConfig,
)
    ensures
        tidy(state, reducer::retargeted(state, target, limits, config)),
{
    let tier = inference::tier_of(target.spl.0, limits, config.profile_thresholds);
    let o = reducer::retargeted(state, target, limits, config);
    lemma_nothing();
    if state.power_target != target {
        let apply = Effect::ApplyPowerEnvelope(target);
        let curve = Effect::ApplyFanCurve(FanCurveSelection::Preset(tier));
        let clock = Effect::ApplyGpuClockRange(GpuClockSelection::Preset(tier));
        let c1 = o.state.active_fan_curve != state.active_fan_curve;
        let c2 = o.state.active_gpu_clock != state.active_gpu_clock;
        lemma_one(apply);
        lemma_when(c1, curve);
        lemma_when(c2, clock);
        lemma_join(seq![apply], reducer::only_if(c1, curve));
        lemma_join(seq![apply] + reducer::only_if(c1, curve), reducer::only_if(c2, clock));
        lemma_then_persist(seq![apply] + reducer::only_if(c1, curve) + reducer::only_if(c2, clock));
    }
}

proof fn lemma_curve_reasserted(state: ProfileState)
    ensures
        keeps_nothing(reducer::curve_reasserted(state)),
        spares_gpu(reducer::curve_reasserted(state)),
{
    lemma_nothing();
    if let Some(selection) = state.active_fan_curve {
        lemma_one(Effect::ApplyFanCurve(selection));
    }
}

proof fn lemma_profile_set(state: ProfileState, profile: ProfileName)
    ensures
        tidy(state, reducer::profile_set(state, profile)),
{
    lemma_nothing();
    if !state.active_profile.same(profile) {
        let apply = Effect::ApplyPlatformProfile(profile);
        lemma_one(apply);
        lemma_curve_reasserted(state);
        lemma_join(seq![apply], reducer::curve_reasserted(state));
        lemma_then_persist(seq![apply] + reducer::curve_reasserted(state));
    }
}

/// The levers that take one step each.
proof fn lemma_single_levers(
    state: ProfileState,
    selection: FanCurveSelection,
    threshold: u8,
    limits: PowerEnvelopeLimits,
    config: RuntimeConfig,
)
    ensures
        tidy(state, reducer::curve_set(state, selection)),
        tidy(state, reducer::fan_followed(state, limits, config)),
        tidy(state, reducer::fan_released(state)),
        tidy(state, reducer::charge_set(state, threshold)),
        tidy(state, reducer::clock_released(state)),
        tidy(state, reducer::unchanged(state)),
{
    lemma_nothing();
    let tier = inference::tier_of(state.power_target.spl.0, limits, config.profile_thresholds);
    lemma_pair(Effect::ApplyFanCurve(selection), Effect::PersistState);
    lemma_pair(
        Effect::ApplyFanCurve(FanCurveSelection::Preset(tier)),
        Effect::PersistState,
    );
    lemma_pair(Effect::ResetFanCurve, Effect::PersistState);
    lemma_pair(Effect::ApplyChargeThreshold(threshold), Effect::PersistState);
    lemma_pair(Effect::ResetGpuClocks, Effect::PersistState);
}

/// Full power programs everything and keeps nothing by itself.
proof fn lemma_maximized(
    state: ProfileState,
    limits: PowerEnvelopeLimits,
    config: RuntimeConfig,
)
    ensures
        keeps_nothing(reducer::maximized(state, limits, config).effects),
        gpu_untouched(state) ==> spares_gpu(reducer::maximized(state, limits, config).effects),
{
    let target = reducer::boosted(limits.spl_max, limits, config);
    let a = Effect::ApplyPowerEnvelope(target);
    let b = Effect::ApplyPlatformProfile(ProfileName::Performance);
    let c = Effect::ApplyFanCurve(FanCurveSelection::Preset(FanCurvePreset::Aggressive));
    let d = Effect::ApplyGpuClockRange(GpuClockSelection::Preset(FanCurvePreset::Aggressive));
    lemma_pair(a, b);
    lemma_one(c);
    lemma_join(seq![a, b], seq![c]);
    assert(seq![a, b] + seq![c] =~= seq![a, b, c]);
    lemma_when(state.active_gpu_clock is Some, d);
    lemma_join(seq![a, b, c], reducer::only_if(state.active_gpu_clock is Some, d));
}

proof fn lemma_restored(state: ProfileState, snapshot: DcSnapshot)
    ensures
        persists_at_most_once(reducer::restored(state, snapshot).effects),
        reducer::persists(reducer::restored(state, snapshot).effects),
        state.active_gpu_clock is None && snapshot.active_gpu_clock is None ==> spares_gpu(
            reducer::restored(state, snapshot).effects,
        ),
{
    let c1 = state.power_target != snapshot.power_target;
    let c2 = !state.active_profile.same(snapshot.active_profile);
    let c3 = state.active_fan_curve != snapshot.active_fan_curve;
    let c4 = state.active_gpu_clock != snapshot.active_gpu_clock;
    let e1 = Effect::ApplyPowerEnvelope(snapshot.power_target);
    let e2 = Effect::ApplyPlatformProfile(snapshot.active_profile);
    let e3 = reducer::curve_effect(snapshot.active_fan_curve);
    let e4 = reducer::clock_effect(snapshot.active_gpu_clock);
    lemma_when(c1, e1);
    lemma_when(c2, e2);
    lemma_when(c3, e3);
    lemma_when(c4, e4);
    lemma_join(reducer::only_if(c1, e1), reducer::only_if(c2, e2));
    lemma_join(reducer::only_if(c1, e1) + reducer::only_if(c2, e2), reducer::only_if(c3, e3));
    lemma_join(reducer::only_if(c1, e1) + reducer::only_if(c2, e2) + reducer::only_if(c3, e3), reducer::only_if(c4, e4));
    lemma_then_persist(reducer::only_if(c1, e1) + reducer::only_if(c2, e2) + reducer::only_if(c3, e3) + reducer::only_if(c4, e4));
}

proof fn lemma_ac_edges(
    state: ProfileState,
    limits: PowerEnvelopeLimits,
    config: RuntimeConfig,
)
    ensures
        tidy(state, reducer::plugged(state, limits, config)),
        state.is_ac_connected ==> (reducer::unplugged(state, limits, config) matches Ok(o) ==> tidy(
            state,
            o,
        ) || falls_back_silently(state, limits, config) && orderly(state, o)),
{
    lemma_nothing();
    lemma_maximized(state, limits, config);
    lemma_then_persist(reducer::maximized(state, limits, config).effects);
    if let Some(snapshot) = state.last_dc_state {
        lemma_restored(state, snapshot);
    } else if state.ac_max_performance {
        let on_battery = ProfileState { is_ac_connected: false, fan_follows_tdp: true, ..state };
        if let Ok(o) = reducer::unplugged(state, limits, config) {
            let watts = reducer::preset_watts(TdpPreset::Balanced, limits);
            let target = reducer::boosted(PowerMilliwatts((watts * 1000) as u32), limits, config);
            assert(o == reducer::retargeted(on_battery, target, limits, config));
            lemma_retargeted(on_battery, target, limits, config);
        }
    }
}

proof fn lemma_resumed(state: ProfileState, limits: PowerEnvelopeLimits, config: RuntimeConfig)
    ensures
        tidy(state, reducer::resumed(state, limits, config)),
{
    let charge = Effect::ApplyChargeThreshold(state.charge_end_threshold);
    lemma_nothing();
    lemma_one(charge);
    lemma_maximized(state, limits, config);
    lemma_pair(charge, Effect::PersistState);
    lemma_join(reducer::maximized(state, limits, config).effects, seq![charge, Effect::PersistState]);
    if !state.pinned() {
        if let Some(snapshot) = state.last_dc_state {
            lemma_restored(state, snapshot);
            lemma_join(reducer::restored(state, snapshot).effects, seq![charge]);
        } else {
            let a = Effect::ApplyPowerEnvelope(state.power_target);
            let b = Effect::ApplyPlatformProfile(state.active_profile);
            lemma_pair(a, b);
            lemma_join(seq![a, b], seq![charge]);
            assert(seq![a, b] + seq![charge] =~= seq![a, b, charge]);
            lemma_curve_reasserted(state);
            lemma_join(seq![a, b, charge], reducer::curve_reasserted(state));
            let tail = match state.active_gpu_clock {
                Some(selection) => seq![
                    Effect::ResetGpuClocks,
                    Effect::ApplyGpuClockRange(selection),
                ],
                None => Seq::empty(),
            };
            if let Some(selection) = state.active_gpu_clock {
                lemma_pair(Effect::ResetGpuClocks, Effect::ApplyGpuClockRange(selection));
            }
            lemma_join(seq![a, b, charge] + reducer::curve_reasserted(state), tail);
            reveal(persists_at_most_once);
            reveal(keeps_nothing);
        }
    }
}

proof fn lemma_lock_set(
    state: ProfileState,
    enabled: bool,
    limits: PowerEnvelopeLimits,
    config: RuntimeConfig,
)
    ensures
        tidy(state, reducer::lock_set(state, enabled, limits, config)),
{
    lemma_nothing();
    lemma_one(Effect::PersistState);
    lemma_maximized(state, limits, config);
    lemma_then_persist(reducer::maximized(state, limits, config).effects);
    if let Some(snapshot) = state.last_dc_state {
        lemma_restored(state, snapshot);
    }
}

/// `without_persist` drops every `PersistState` and nothing else.
proof fn lemma_without_persist(effects: Seq<Effect>)
    ensures
        keeps_nothing(reducer::without_persist(effects)),
        spares_gpu(effects) ==> spares_gpu(reducer::without_persist(effects)),
    decreases effects.len(),
{
    lemma_nothing();
    if effects.len() > 0 {
        let rest = effects.drop_last();
        lemma_without_persist(rest);
        lemma_one(effects.last());
        lemma_join(reducer::without_persist(rest), seq![effects.last()]);
        assert(reducer::without_persist(rest).push(effects.last()) =~= reducer::without_persist(rest)
            + seq![effects.last()]);
        reveal(spares_gpu);
    }
}

proof fn lemma_persist_once(effects: Seq<Effect>)
    ensures
        persists_at_most_once(reducer::persist_once(effects)),
        reducer::persists(effects) ==> reducer::persists(reducer::persist_once(effects)),
        spares_gpu(effects) ==> spares_gpu(reducer::persist_once(effects)),
{
    lemma_nothing();
    lemma_without_persist(effects);
    lemma_then_persist(reducer::without_persist(effects));
    lemma_join(reducer::without_persist(effects), Seq::empty());
}

proof fn lemma_defaults_restored(
    state: ProfileState,
    limits: PowerEnvelopeLimits,
    config: RuntimeConfig,
)
    ensures
        reducer::defaults_restored(state, limits, config) matches Ok(o) ==> tidy(state, o),
{
    if let Ok(a) = reducer::preset_set(state, TdpPreset::Balanced, limits, config) {
        let watts = reducer::preset_watts(TdpPreset::Balanced, limits);
        let target = reducer::boosted(PowerMilliwatts((watts * 1000) as u32), limits, config);
        let b = reducer::profile_set(a.state, ProfileName::Performance);
        let c = reducer::charge_set(b.state, DEFAULT_CHARGE_THRESHOLD);
        let d = reducer::fan_released(c.state);
        let e = reducer::clock_released(d.state);
        let any = FanCurveSelection::Preset(FanCurvePreset::Silent);
        lemma_retargeted(state, target, limits, config);
        lemma_profile_set(a.state, ProfileName::Performance);
        lemma_single_levers(b.state, any, DEFAULT_CHARGE_THRESHOLD, limits, config);
        lemma_single_levers(c.state, any, DEFAULT_CHARGE_THRESHOLD, limits, config);
        lemma_single_levers(d.state, any, DEFAULT_CHARGE_THRESHOLD, limits, config);
        lemma_join(a.effects, b.effects);
        lemma_join(a.effects + b.effects, c.effects);
        lemma_join(a.effects + b.effects + c.effects, d.effects);
        lemma_join(a.effects + b.effects + c.effects + d.effects, e.effects);
        lemma_persist_once(a.effects + b.effects + c.effects + d.effects + e.effects);
    }
}

/// Every transition but those that ask for the GPU clock.
proof fn lemma_next_tidy(
    state: ProfileState,
    transition: Transition,
    limits: PowerEnvelopeLimits,
    config: RuntimeConfig,
)
    requires
        !transition.is_sync(),
        !(transition is SetGpuClockRange),
        !(transition is EnableGpuAutoFollow),
    ensures
        reducer::next(state, transition, limits, config) matches Ok(o) ==> tidy(state, o) || (
        transition == Transition::AcPowerChanged(false) && falls_back_silently(
            state,
            limits,
            config,
        ) && orderly(state, o)),
{
    let any = FanCurveSelection::Preset(FanCurvePreset::Silent);
    lemma_single_levers(state, any, 0, limits, config);
    if !(state.pinned() && transition.moves_a_lever()) {
        match transition {
            Transition::SetPreset(preset) => {
                let watts = reducer::preset_watts(preset, limits);
                let target = reducer::boosted(PowerMilliwatts((watts * 1000) as u32), limits, config);
                lemma_retargeted(state, target, limits, config);
            },
            Transition::SetSpl(watts) => {
                let target = reducer::boosted(PowerMilliwatts((watts * 1000) as u32), limits, config);
                lemma_retargeted(state, target, limits, config);
            },
            Transition::SetEnvelope(target) => {
                lemma_retargeted(state, target, limits, config);
            },
            Transition::SetProfile(profile) => {
                lemma_profile_set(state, profile);
            },
            Transition::SetCoolingLevel(preset) => {
                lemma_single_levers(state, FanCurveSelection::Preset(preset), 0, limits, config);
            },
            Transition::SetCustomFanCurve { cpu, gpu } => {
                lemma_single_levers(
                    state,
                    FanCurveSelection::Custom { cpu, gpu },
                    0,
                    limits,
                    config,
                );
            },
            Transition::ChargeThresholdChanged(threshold) => {
                lemma_single_levers(state, any, threshold, limits, config);
            },
            Transition::AcPowerChanged(_) => {
                lemma_ac_edges(state, limits, config);
            },
            Transition::SystemResumed => {
                lemma_resumed(state, limits, config);
            },
            Transition::SetAcMaxPerformance(enabled) => {
                lemma_lock_set(state, enabled, limits, config);
            },
            Transition::RestoreDefaults => {
                lemma_defaults_restored(state, limits, config);
            },
            Transition::Shutdown => {
                lemma_one(Effect::PersistState);
            },
            _ => {},
        }
    }
}

/// The daemon leaves the GPU clock alone until it is asked for: nothing but a
/// range, auto-follow or a reading of the hardware brings it into the state.
pub proof fn gpu_clock_is_never_opted_in(
    state: ProfileState,
    transition: Transition,
    limits: PowerEnvelopeLimits,
    config: RuntimeConfig,
)
    requires
        gpu_untouched(state),
        !(transition is SetGpuClockRange),
        !(transition is EnableGpuAutoFollow),
        !(transition is SyncGpuClockRange),
    ensures
        reducer::next(state, transition, limits, config) matches Ok(o) ==> gpu_untouched(o.state)
            && spares_gpu(o.effects),
{
    lemma_nothing();
    if !transition.is_sync() {
        lemma_next_tidy(state, transition, limits, config);
    }
}

/// No transition writes the state to disk more than once.
pub proof fn state_is_kept_at_most_once(
    state: ProfileState,
    transition: Transition,
    limits: PowerEnvelopeLimits,
    config: RuntimeConfig,
)
    ensures
        reducer::next(state, transition, limits, config) matches Ok(o) ==> persists_at_most_once(o.effects),
{
    lemma_nothing();
    lemma_gpu_requests(state, transition, limits, config);
    if !transition.is_sync() && !(transition is SetGpuClockRange)
        && !(transition is EnableGpuAutoFollow) {
        lemma_next_tidy(state, transition, limits, config);
    }
}

/// A change of what is kept over restarts is written to disk, unless it was
/// read from the hardware. (Unplugging with nothing to return to is left out
/// where it only lets the fans follow the envelope that is in force.)
pub proof fn changes_are_kept(
    state: ProfileState,
    transition: Transition,
    limits: PowerEnvelopeLimits,
    config: RuntimeConfig,
)
    requires
        !transition.is_sync(),
        !(transition == Transition::AcPowerChanged(false) && falls_back_silently(
            state,
            limits,
            config,
        )),
    ensures
        reducer::next(state, transition, limits, config) matches Ok(o) ==> same_on_disk(o.state, state)
            || reducer::persists(o.effects),
{
    lemma_gpu_requests(state, transition, limits, config);
    if !(transition is SetGpuClockRange) && !(transition is EnableGpuAutoFollow) {
        lemma_next_tidy(state, transition, limits, config);
    }
}

proof fn lemma_gpu_requests(
    state: ProfileState,
    transition: Transition,
    limits: PowerEnvelopeLimits,
    config: RuntimeConfig,
)
    ensures
        transition is SetGpuClockRange || transition is EnableGpuAutoFollow ==> (reducer::next(
            state,
            transition,
            limits,
            config,
        ) matches Ok(o) && persists_at_most_once(o.effects) && (same_on_disk(o.state, state)
            || reducer::persists(o.effects))),
{
    lemma_nothing();
    let tier = inference::tier_of(state.power_target.spl.0, limits, config.profile_thresholds);
    lemma_pair(
        Effect::ApplyGpuClockRange(GpuClockSelection::Preset(tier)),
        Effect::PersistState,
    );
    if let Transition::SetGpuClockRange { min_mhz, max_mhz } = transition {
        let range = GpuClockRange { min_mhz, max_mhz };
        lemma_pair(
            Effect::ApplyGpuClockRange(GpuClockSelection::Custom(range)),
            Effect::PersistState,
        );
    }
}

/// Restoring the defaults twice is restoring them once: the second time nothing
/// changes and nothing is programmed.
pub proof fn restoring_defaults_is_idempotent(
    state: ProfileState,
    limits: PowerEnvelopeLimits,
    config: RuntimeConfig,
)
    requires
        !state.pinned(),
    ensures
        reducer::next(state, Transition::RestoreDefaults, limits, config) matches Ok(once) ==> reducer::next(
            once.state,
            Transition::RestoreDefaults,
            limits,
            config,
        ) == Ok::<Outcome, Seq<char>>(reducer::unchanged(once.state)),
{
    if let Ok(once) = reducer::next(state, Transition::RestoreDefaults, limits, config) {
        let none = Seq::<Effect>::empty();
        assert(none + none + none + none + none =~= none);
        assert(reducer::without_persist(none) =~= none);
        assert(reducer::persist_once(none) =~= none);
        let twice = reducer::next(once.state, Transition::RestoreDefaults, limits, config)->Ok_0;
        assert(twice.state == once.state);
        assert(twice.effects == reducer::persist_once(none + none + none + none + none));
    }
}

/// After the defaults are restored, every lever stands at its recommended
/// setting.
pub proof fn restored_defaults_are_in_force(
    state: ProfileState,
    limits: PowerEnvelopeLimits,
    config: RuntimeConfig,
)
    requires
        !state.pinned(),
    ensures
        reducer::next(state, Transition::RestoreDefaults, limits, config) matches Ok(o) ==> {
            &&& o.state.power_target.spl.0 == reducer::preset_watts(TdpPreset::Balanced, limits) * 1000
            &&& o.state.active_profile is Performance
            &&& o.state.charge_end_threshold == DEFAULT_CHARGE_THRESHOLD
            &&& o.state.active_fan_curve is None
            &&& !o.state.fan_follows_tdp
            &&& o.state.active_gpu_clock is None
            &&& !o.state.gpu_follows_tdp
        },
{
}

/// Once the fans or the GPU clock are handed back to the firmware, nothing holds
/// them and they follow nothing, whatever the state before.
pub proof fn released_levers_follow_nothing(
    state: ProfileState,
    limits: PowerEnvelopeLimits,
    config: RuntimeConfig,
)
    requires
        !state.pinned(),
    ensures
        reducer::next(state, Transition::ResetGpuClocks, limits, config) matches Ok(o)
            && o.state.active_gpu_clock is None && !o.state.gpu_follows_tdp,
        reducer::next(state, Transition::ResetFanCurve, limits, config) matches Ok(o)
            && o.state.active_fan_curve is None && !o.state.fan_follows_tdp,
{
}

/// Where the fans follow the power envelope, they run the level of the envelope
/// that was moved to.
pub proof fn following_fans_track_the_envelope(
    state: ProfileState,
    target: PowerEnvelopeTarget,
    limits: PowerEnvelopeLimits,
    config: RuntimeConfig,
)
    requires
        !state.pinned(),
        state.fan_follows_tdp,
        state.power_target != target,
    ensures
        reducer::next(state, Transition::SetEnvelope(target), limits, config) matches Ok(o)
            ==> o.state.active_fan_curve == Some(
            FanCurveSelection::Preset(inference::tier_of(target.spl.0, limits, config.profile_thresholds)),
        ),
{
}

/// Cooling and power are separate levers: a cooling level or a curve leaves
/// power envelope and profile alone, and a profile leaves the fans' selection
/// alone.
pub proof fn cooling_and_power_are_decoupled(
    state: ProfileState,
    transition: Transition,
    limits: PowerEnvelopeLimits,
    config: RuntimeConfig,
)
    ensures
        reducer::next(state, transition, limits, config) matches Ok(o) ==> {
            &&& transition is SetCoolingLevel || transition is SetCustomFanCurve
                || transition is EnableFanAuto || transition is ResetFanCurve
                ==> o.state.power_target == state.power_target && o.state.active_profile
                == state.active_profile
            &&& transition is SetProfile ==> o.state.power_target == state.power_target
                && o.state.active_fan_curve == state.active_fan_curve && o.state.fan_follows_tdp
                == state.fan_follows_tdp
        },
{
}

/// A switch of the platform profile programs the fan curve again after it,
/// where there is one: the firmware may drop the curve on the switch.
pub proof fn profile_switch_reasserts_the_curve(
    state: ProfileState,
    profile: ProfileName,
    limits: PowerEnvelopeLimits,
    config: RuntimeConfig,
)
    requires
        !state.pinned(),
        !state.active_profile.same(profile),
    ensures
        reducer::next(state, Transition::SetProfile(profile), limits, config) matches Ok(o) && o.effects
            == seq![Effect::ApplyPlatformProfile(profile)] + reducer::curve_reasserted(state)
            + seq![Effect::PersistState],
{
}

/// A refused transition changes nothing because there is no outcome; only a
/// request for power, or an unplugged charger with nothing to return to, is
/// ever refused.
pub proof fn only_power_requests_are_refused(
    state: ProfileState,
    transition: Transition,
    limits: PowerEnvelopeLimits,
    config: RuntimeConfig,
)
    requires
        reducer::next(state, transition, limits, config) is Err,
    ensures
        transition is SetSpl || transition is SetPreset || transition is SetEnvelope
            || transition is RestoreDefaults || (transition == Transition::AcPowerChanged(false)
            && state.ac_max_performance && state.last_dc_state is None),
{
}

} // verus!
