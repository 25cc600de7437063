//! The executor: it applies transitions to the state one at a time, carries
//! out the effects, and brings the state back in line where the hardware
//! refuses a write.
//!
//! The backend is the users' own; the contracts say which of its capabilities
//! are asked, and what follows from each answer.

use crate::backend::{HwBackend, PowerHandle};
use crate::calls;
use crate::calls::{Call, Holding, Order, Recorded};
use crate::charge::ChargeControl;
use crate::effect::Effect;
use crate::error;
use crate::error::{BackendError, HpdError};
use crate::fan_curve::{FanCurveControl, FanCurvePreset, FanCurveSelection};
use crate::gpu_clock::{GpuClockConstraints, GpuClockRange, GpuClockRangeControl, GpuClockSelection};
use crate::inference;
use crate::inference::checked_gpu_clock_range_for_tier;
use crate::platform_profile::PlatformProfile;
use crate::power::{PowerEnvelope, PowerEnvelopeLimits, PowerEnvelopeTarget};
use crate::profile::{ProfileName, RuntimeConfig};
use crate::reducer;
use crate::reducer::reduce;
use crate::state::ProfileState;
use crate::transition::Transition;
use vstd::prelude::*;

verus! {

/// How many transitions may wait for the executor.
pub const TRANSITION_CHANNEL_CAPACITY: usize = 32;

// ---------------------------------------------------------------------------
// Steps
// ---------------------------------------------------------------------------

/// What a transition came to.
#[derive(Debug)]
pub enum StepOutcome {
    /// The tuning was read again, and whether it differs from the one before.
    Reconfigured(bool),
    /// The transition was refused; nothing changed.
    Refused(HpdError),
    /// The state is the new one, and these effects are due, in order.
    Applied(Vec<Effect>),
}

/// What a transition came to, and whether it was the last.
#[derive(Debug)]
pub struct Step {
    pub outcome: StepOutcome,
    pub stop: bool,
}

/// The state with the flag that tells whether the levers are locked now.
pub open spec fn reported(state: ProfileState) -> ProfileState {
    ProfileState { ac_locked: state.pinned(), ..state }
}

/// The state with the charger found plugged in or not; as it was where that
/// could not be read.
pub open spec fn with_charger(
    state: ProfileState,
    charger: Option<Result<bool, HpdError>>,
) -> ProfileState {
    match charger {
        Some(Ok(plugged)) => ProfileState { is_ac_connected: plugged, ..state },
        _ => state,
    }
}

/// The state with the charger found plugged in or not; as it was where that
/// could not be read.
pub fn refresh_charger(
    state: ProfileState,
    charger: &Option<Result<bool, HpdError>>,
) -> (r: ProfileState)
    ensures
        r == with_charger(state, *charger),
{
    let mut state = state;
    if let Some(Ok(plugged)) = charger {
        state.is_ac_connected = *plugged;
    }
    state
}

/// Whether `step` and `after` are what becomes of `state` on a transition that
/// the reducer handles, the charger having been found as `charger`.
pub open spec fn stepped(
    state: ProfileState,
    transition: Transition,
    limits: PowerEnvelopeLimits,
    config: RuntimeConfig,
    charger: Option<Result<bool, HpdError>>,
    step: Step,
    after: ProfileState,
) -> bool {
    &&& step.stop == (transition is Shutdown)
    &&& match reducer::next(with_charger(state, charger), transition, limits, config) {
        Ok(outcome) => {
            &&& after == reported(outcome.state)
            &&& step.outcome matches StepOutcome::Applied(effects)
            &&& effects@ == outcome.effects
        },
        Err(words) => {
            &&& after == state
            &&& step.outcome matches StepOutcome::Refused(e)
            &&& error::is_violation(e, words)
        },
    }
}

/// What becomes of `state` on a transition that the reducer handles, the
/// charger having been found as `charger`.
pub fn advance(
    state: &mut ProfileState,
    transition: Transition,
    limits: &PowerEnvelopeLimits,
    config: &RuntimeConfig,
    charger: &Option<Result<bool, HpdError>>,
) -> (r: Step)
    ensures
        stepped(*old(state), transition, *limits, *config, *charger, r, *final(state)),
{
    let stop = matches!(transition, Transition::Shutdown);
    let known = refresh_charger(state.clone(), charger);
    match reduce(&known, transition, limits, config) {
        Ok(output) => {
            let mut new_state = output.new_state;
            new_state.ac_locked = new_state.is_ac_connected && new_state.ac_max_performance;
            *state = new_state;
            Step { outcome: StepOutcome::Applied(output.effects), stop }
        },
        Err(e) => Step { outcome: StepOutcome::Refused(e), stop },
    }
}

/// Whether the charger was found as `r`; nothing where the backend cannot
/// tell.
pub open spec fn charger_gave<B: HwBackend>(b: &B, r: Option<Result<bool, HpdError>>) -> bool {
    exists|cap: Option<&dyn ChargeControl>| #[trigger]
        call_ensures(B::charge, (b,), cap) && match cap {
            None => r is None,
            Some(c) => r matches Some(a) && ac_returned(c, a),
        }
}

/// Whether the charge control told that the charger is plugged in, or not.
pub open spec fn ac_returned<C: ChargeControl + ?Sized>(c: &C, r: Result<bool, HpdError>) -> bool {
    call_ensures(C::is_ac_connected, (c,), r)
}

fn ask_ac<C: ChargeControl + ?Sized>(c: &C) -> (r: Result<bool, HpdError>)
    ensures
        ac_returned(c, r),
{
    c.is_ac_connected()
}

/// Whether the charger is plugged in, where the backend can tell.
pub fn read_charger<B: HwBackend>(b: &B) -> (r: Option<Result<bool, HpdError>>)
    ensures
        charger_gave(b, r),
{
    match b.charge() {
        None => None,
        Some(c) => Some(ask_ac(c)),
    }
}

// ---------------------------------------------------------------------------
// Effects
// ---------------------------------------------------------------------------

/// What is left to do after an effect was carried out.
#[derive(Debug)]
pub enum FollowUp {
    /// Nothing: the hardware took it.
    Applied,
    /// Nothing: the backend does not have the capability.
    Unsupported,
    /// Nothing: what is to be written could not be found out.
    Skipped(HpdError),
    /// The hardware refused, and this is what it holds.
    Sync { cause: HpdError, transition: Transition },
    /// The hardware refused, and what it holds could not be read.
    Diverged { cause: HpdError, unread: HpdError },
    /// The state is to be kept.
    Persist,
}

/// Whether `r` follows from the end of a write: nothing where it was taken,
/// else what was read back.
pub open spec fn rolled_back(
    cause: HpdError,
    held: Result<Transition, HpdError>,
    r: FollowUp,
) -> bool {
    match held {
        Ok(transition) => r == (FollowUp::Sync { cause, transition }),
        Err(unread) => r == (FollowUp::Diverged { cause, unread }),
    }
}

/// What follows where the hardware refused a write, by what it holds.
pub fn rollback(cause: HpdError, held: Result<Transition, HpdError>) -> (r: FollowUp)
    ensures
        rolled_back(cause, held, r),
{
    match held {
        Ok(transition) => FollowUp::Sync { cause, transition },
        Err(unread) => FollowUp::Diverged { cause, unread },
    }
}

/// Whether the calls from `from` on programmed a power envelope and came to `r`.
/// Where the hardware refused, what it holds is asked afterwards. There are no
/// other calls.
pub open spec fn envelope_applied<C: PowerEnvelope + ?Sized>(
    c: &C,
    log: Seq<Call>,
    from: int,
    target: PowerEnvelopeTarget,
    r: FollowUp,
) -> bool {
    &&& 0 <= from < log.len()
    &&& log[from] matches Call::Told(Order::Target(told), w) && told == target && call_ensures(
        C::set_target,
        (c, &target),
        w,
    ) && match w {
        Ok(()) => log.len() == from + 1 && r is Applied,
        Err(cause) => {
            &&& log.len() == from + 2
            &&& log[from + 1] matches Call::Asked(Holding::Target(held)) && call_ensures(
                C::get_target,
                (c,),
                held,
            ) && rolled_back(
                cause,
                match held {
                    Ok(found) => Ok(Transition::SyncPowerTarget(found)),
                    Err(e) => Err(e),
                },
                r,
            )
        },
    }
}

fn apply_envelope<C: PowerEnvelope + ?Sized>(
    c: &mut Recorded<C>,
    target: &PowerEnvelopeTarget,
) -> (r: FollowUp)
    ensures
        final(c).capability() == old(c).capability(),
        calls::goes_on(old(c).log(), final(c).log()),
        envelope_applied(
            old(c).capability(),
            final(c).log(),
            old(c).log().len() as int,
            *target,
            r,
        ),
{
    match c.set_target(target) {
        Ok(()) => FollowUp::Applied,
        Err(cause) => {
            let held = c.get_target();
            rollback(
                cause,
                match held {
                    Ok(found) => Ok(Transition::SyncPowerTarget(found)),
                    Err(e) => Err(e),
                },
            )
        },
    }
}

/// Whether the calls from `from` on switched the platform profile and came to `r`.
/// Where the hardware refused, what it holds is asked afterwards. There are no
/// other calls.
pub open spec fn profile_applied<C: PlatformProfile + ?Sized>(
    c: &C,
    log: Seq<Call>,
    from: int,
    profile: ProfileName,
    r: FollowUp,
) -> bool {
    &&& 0 <= from < log.len()
    &&& log[from] matches Call::Told(Order::Profile(told), w) && told == profile && call_ensures(
        C::set_active_profile,
        (c, &profile),
        w,
    ) && match w {
        Ok(()) => log.len() == from + 1 && r is Applied,
        Err(cause) => {
            &&& log.len() == from + 2
            &&& log[from + 1] matches Call::Asked(Holding::Profile(held)) && call_ensures(
                C::get_active_profile,
                (c,),
                held,
            ) && rolled_back(
                cause,
                match held {
                    Ok(found) => Ok(Transition::SyncPlatformProfile(found)),
                    Err(e) => Err(e),
                },
                r,
            )
        },
    }
}

fn apply_profile<C: PlatformProfile + ?Sized>(
    c: &mut Recorded<C>,
    profile: &ProfileName,
) -> (r: FollowUp)
    ensures
        final(c).capability() == old(c).capability(),
        calls::goes_on(old(c).log(), final(c).log()),
        profile_applied(
            old(c).capability(),
            final(c).log(),
            old(c).log().len() as int,
            *profile,
            r,
        ),
{
    match c.set_active_profile(profile) {
        Ok(()) => FollowUp::Applied,
        Err(cause) => {
            let held = c.get_active_profile();
            rollback(
                cause,
                match held {
                    Ok(found) => Ok(Transition::SyncPlatformProfile(found)),
                    Err(e) => Err(e),
                },
            )
        },
    }
}

/// Whether the calls from `from` on set the charge limit and came to `r`.
/// Where the hardware refused, what it holds is asked afterwards. There are no
/// other calls.
pub open spec fn threshold_applied<C: ChargeControl + ?Sized>(
    c: &C,
    log: Seq<Call>,
    from: int,
    threshold: u8,
    r: FollowUp,
) -> bool {
    &&& 0 <= from < log.len()
    &&& log[from] matches Call::Told(Order::Threshold(told), w) && told == threshold && call_ensures(
        C::set_end_threshold,
        (c, threshold),
        w,
    ) && match w {
        Ok(()) => log.len() == from + 1 && r is Applied,
        Err(cause) => {
            &&& log.len() == from + 2
            &&& log[from + 1] matches Call::Asked(Holding::Threshold(held)) && call_ensures(
                C::get_end_threshold,
                (c,),
                held,
            ) && rolled_back(
                cause,
                match held {
                    Ok(found) => Ok(Transition::SyncChargeThreshold(found)),
                    Err(e) => Err(e),
                },
                r,
            )
        },
    }
}

fn apply_threshold<C: ChargeControl + ?Sized>(
    c: &mut Recorded<C>,
    threshold: u8,
) -> (r: FollowUp)
    ensures
        final(c).capability() == old(c).capability(),
        calls::goes_on(old(c).log(), final(c).log()),
        threshold_applied(
            old(c).capability(),
            final(c).log(),
            old(c).log().len() as int,
            threshold,
            r,
        ),
{
    match c.set_end_threshold(threshold) {
        Ok(()) => FollowUp::Applied,
        Err(cause) => {
            let held = c.get_end_threshold();
            rollback(
                cause,
                match held {
                    Ok(found) => Ok(Transition::SyncChargeThreshold(found)),
                    Err(e) => Err(e),
                },
            )
        },
    }
}

/// Whether the calls from `from` on programmed the fans and came to `r`.
/// Where the hardware refused, what it holds is asked afterwards. There are no
/// other calls.
pub open spec fn curve_applied<C: FanCurveControl + ?Sized>(
    c: &C,
    log: Seq<Call>,
    from: int,
    selection: FanCurveSelection,
    r: FollowUp,
) -> bool {
    &&& 0 <= from < log.len()
    &&& log[from] matches Call::Told(Order::Curve(told), w) && told == selection && call_ensures(
        C::apply,
        (c, &selection),
        w,
    ) && match w {
        Ok(()) => log.len() == from + 1 && r is Applied,
        Err(cause) => {
            &&& log.len() == from + 2
            &&& log[from + 1] matches Call::Asked(Holding::Curve(held)) && call_ensures(
                C::active_selection,
                (c,),
                held,
            ) && rolled_back(
                cause,
                match held {
                    Ok(found) => Ok(Transition::SyncFanCurve(found)),
                    Err(e) => Err(e),
                },
                r,
            )
        },
    }
}

fn apply_curve<C: FanCurveControl + ?Sized>(
    c: &mut Recorded<C>,
    selection: &FanCurveSelection,
) -> (r: FollowUp)
    ensures
        final(c).capability() == old(c).capability(),
        calls::goes_on(old(c).log(), final(c).log()),
        curve_applied(
            old(c).capability(),
            final(c).log(),
            old(c).log().len() as int,
            *selection,
            r,
        ),
{
    match c.apply(selection) {
        Ok(()) => FollowUp::Applied,
        Err(cause) => {
            let held = c.active_selection();
            rollback(
                cause,
                match held {
                    Ok(found) => Ok(Transition::SyncFanCurve(found)),
                    Err(e) => Err(e),
                },
            )
        },
    }
}

/// Whether the calls from `from` on handed the fans back to the firmware and came to `r`.
/// Where the hardware refused, what it holds is asked afterwards. There are no
/// other calls.
pub open spec fn curve_reset<C: FanCurveControl + ?Sized>(
    c: &C,
    log: Seq<Call>,
    from: int,
    r: FollowUp,
) -> bool {
    &&& 0 <= from < log.len()
    &&& log[from] matches Call::Told(Order::AutoFans, w) && call_ensures(
        C::reset_to_auto,
        (c,),
        w,
    ) && match w {
        Ok(()) => log.len() == from + 1 && r is Applied,
        Err(cause) => {
            &&& log.len() == from + 2
            &&& log[from + 1] matches Call::Asked(Holding::Curve(held)) && call_ensures(
                C::active_selection,
                (c,),
                held,
            ) && rolled_back(
                cause,
                match held {
                    Ok(found) => Ok(Transition::SyncFanCurve(found)),
                    Err(e) => Err(e),
                },
                r,
            )
        },
    }
}

fn reset_curve<C: FanCurveControl + ?Sized>(c: &mut Recorded<C>) -> (r: FollowUp)
    ensures
        final(c).capability() == old(c).capability(),
        calls::goes_on(old(c).log(), final(c).log()),
        curve_reset(
            old(c).capability(),
            final(c).log(),
            old(c).log().len() as int,
            r,
        ),
{
    match c.reset_fans() {
        Ok(()) => FollowUp::Applied,
        Err(cause) => {
            let held = c.active_selection();
            rollback(
                cause,
                match held {
                    Ok(found) => Ok(Transition::SyncFanCurve(found)),
                    Err(e) => Err(e),
                },
            )
        },
    }
}

/// Whether `r` is the range that a selection stands for on a device with these
/// clocks. The range of a tier is the tier's share of the clocks; one that
/// cannot be counted is an error.
pub open spec fn range_resolved(
    selection: GpuClockSelection,
    constraints: Result<GpuClockConstraints, HpdError>,
    config: RuntimeConfig,
    r: Result<GpuClockRange, HpdError>,
) -> bool {
    match selection {
        GpuClockSelection::Custom(range) => r == Ok::<GpuClockRange, HpdError>(range),
        GpuClockSelection::Preset(tier) => match constraints {
            Err(e) => r == Err::<GpuClockRange, HpdError>(e),
            Ok(c) => if inference::tier_countable(tier, c, config.gpu_clock_fractions) {
                r == Ok::<GpuClockRange, HpdError>(
                    inference::tier_range(tier, c, config.gpu_clock_fractions),
                )
            } else {
                r matches Err(HpdError::Backend(BackendError::Other(words))) && words@
                    == "the highest clock of the tier cannot be counted"@
            },
        },
    }
}

/// The range that a selection stands for on a device with these clocks.
pub fn resolve_range(
    selection: &GpuClockSelection,
    constraints: Result<GpuClockConstraints, HpdError>,
    config: &RuntimeConfig,
) -> (r: Result<GpuClockRange, HpdError>)
    ensures
        range_resolved(*selection, constraints, *config, r),
{
    match selection {
        GpuClockSelection::Custom(range) => Ok(*range),
        GpuClockSelection::Preset(tier) => match constraints {
            Err(e) => Err(e),
            Ok(c) => match checked_gpu_clock_range_for_tier(
                *tier,
                &c,
                &config.gpu_clock_fractions,
            ) {
                Some(range) => Ok(range),
                None => Err(
                    HpdError::Backend(
                        BackendError::Other(
                            "the highest clock of the tier cannot be counted".to_owned(),
                        ),
                    ),
                ),
            },
        },
    }
}

/// Whether the calls from `from` on held the GPU clock to a range and came to `r`.
/// Where the hardware refused, what it holds is asked afterwards. There are no
/// other calls.
pub open spec fn range_applied<C: GpuClockRangeControl + ?Sized>(
    c: &C,
    log: Seq<Call>,
    from: int,
    range: GpuClockRange,
    r: FollowUp,
) -> bool {
    &&& 0 <= from < log.len()
    &&& log[from] matches Call::Told(Order::Range(told), w) && told == range && call_ensures(
        C::set_range,
        (c, &range),
        w,
    ) && match w {
        Ok(()) => log.len() == from + 1 && r is Applied,
        Err(cause) => {
            &&& log.len() == from + 2
            &&& log[from + 1] matches Call::Asked(Holding::Range(held)) && call_ensures(
                C::active_range,
                (c,),
                held,
            ) && rolled_back(
                cause,
                match held {
                    Ok(found) => Ok(Transition::SyncGpuClockRange(found)),
                    Err(e) => Err(e),
                },
                r,
            )
        },
    }
}

fn apply_range<C: GpuClockRangeControl + ?Sized>(
    c: &mut Recorded<C>,
    range: &GpuClockRange,
) -> (r: FollowUp)
    ensures
        final(c).capability() == old(c).capability(),
        calls::goes_on(old(c).log(), final(c).log()),
        range_applied(
            old(c).capability(),
            final(c).log(),
            old(c).log().len() as int,
            *range,
            r,
        ),
{
    match c.set_range(range) {
        Ok(()) => FollowUp::Applied,
        Err(cause) => {
            let held = c.active_range();
            rollback(
                cause,
                match held {
                    Ok(found) => Ok(Transition::SyncGpuClockRange(found)),
                    Err(e) => Err(e),
                },
            )
        },
    }
}

/// Whether the calls from `from` on held the GPU clock to a selection and came to
/// `r`. For a tier the clocks of the device are asked first; where the range of
/// the selection cannot be found out, nothing is written.
pub open spec fn clock_applied<C: GpuClockRangeControl + ?Sized>(
    c: &C,
    log: Seq<Call>,
    from: int,
    selection: GpuClockSelection,
    config: RuntimeConfig,
    r: FollowUp,
) -> bool {
    match selection {
        GpuClockSelection::Custom(range) => range_applied(c, log, from, range, r),
        GpuClockSelection::Preset(_) => {
            &&& 0 <= from < log.len()
            &&& log[from] matches Call::Asked(Holding::Clocks(clocks)) && call_ensures(
                C::constraints,
                (c,),
                clocks,
            ) && exists|resolved: Result<GpuClockRange, HpdError>| #[trigger]
                range_resolved(selection, clocks, config, resolved) && match resolved {
                    Err(e) => log.len() == from + 1 && r == FollowUp::Skipped(e),
                    Ok(range) => range_applied(c, log, from + 1, range, r),
                }
        },
    }
}

fn apply_clock<C: GpuClockRangeControl + ?Sized>(
    c: &mut Recorded<C>,
    selection: &GpuClockSelection,
    config: &RuntimeConfig,
) -> (r: FollowUp)
    ensures
        final(c).capability() == old(c).capability(),
        calls::goes_on(old(c).log(), final(c).log()),
        clock_applied(
            old(c).capability(),
            final(c).log(),
            old(c).log().len() as int,
            *selection,
            *config,
            r,
        ),
{
    match selection {
        GpuClockSelection::Custom(range) => apply_range(c, range),
        GpuClockSelection::Preset(_) => {
            let clocks = c.constraints();
            let ghost read = clocks;
            let resolved = resolve_range(selection, clocks, config);
            assert(range_resolved(*selection, read, *config, resolved));
            match resolved {
                Err(e) => FollowUp::Skipped(e),
                Ok(range) => apply_range(c, &range),
            }
        },
    }
}

/// Whether the calls from `from` on handed the GPU clock back to the firmware and came to `r`.
/// Where the hardware refused, what it holds is asked afterwards. There are no
/// other calls.
pub open spec fn clock_reset<C: GpuClockRangeControl + ?Sized>(
    c: &C,
    log: Seq<Call>,
    from: int,
    r: FollowUp,
) -> bool {
    &&& 0 <= from < log.len()
    &&& log[from] matches Call::Told(Order::AutoClock, w) && call_ensures(
        C::reset_to_auto,
        (c,),
        w,
    ) && match w {
        Ok(()) => log.len() == from + 1 && r is Applied,
        Err(cause) => {
            &&& log.len() == from + 2
            &&& log[from + 1] matches Call::Asked(Holding::Range(held)) && call_ensures(
                C::active_range,
                (c,),
                held,
            ) && rolled_back(
                cause,
                match held {
                    Ok(found) => Ok(Transition::SyncGpuClockRange(found)),
                    Err(e) => Err(e),
                },
                r,
            )
        },
    }
}

fn reset_clock<C: GpuClockRangeControl + ?Sized>(c: &mut Recorded<C>) -> (r: FollowUp)
    ensures
        final(c).capability() == old(c).capability(),
        calls::goes_on(old(c).log(), final(c).log()),
        clock_reset(
            old(c).capability(),
            final(c).log(),
            old(c).log().len() as int,
            r,
        ),
{
    match c.reset_clock() {
        Ok(()) => FollowUp::Applied,
        Err(cause) => {
            let held = c.active_range();
            rollback(
                cause,
                match held {
                    Ok(found) => Ok(Transition::SyncGpuClockRange(found)),
                    Err(e) => Err(e),
                },
            )
        },
    }
}

/// Whether carrying out an effect came to `r`. An effect on a capability that
/// the backend does not have comes to nothing.
pub open spec fn handled<B: HwBackend>(
    b: &B,
    config: RuntimeConfig,
    effect: Effect,
    r: FollowUp,
) -> bool {
    match effect {
        Effect::ApplyPowerEnvelope(target) => exists|cap: PowerHandle| #[trigger]
            call_ensures(B::power, (b,), cap) && exists|log: Seq<Call>| #[trigger]
                envelope_applied(cap.0, log, 0, target, r),
        Effect::ApplyPlatformProfile(profile) => exists|cap: Option<&dyn PlatformProfile>|
            #[trigger]
            call_ensures(B::profile, (b,), cap) && match cap {
                None => r is Unsupported,
                Some(p) => exists|log: Seq<Call>| #[trigger]
                    profile_applied(p, log, 0, profile, r),
            },
        Effect::ApplyChargeThreshold(threshold) => exists|cap: Option<&dyn ChargeControl>|
            #[trigger]
            call_ensures(B::charge, (b,), cap) && match cap {
                None => r is Unsupported,
                Some(c) => exists|log: Seq<Call>| #[trigger]
                    threshold_applied(c, log, 0, threshold, r),
            },
        Effect::ApplyFanCurve(selection) => exists|cap: Option<&dyn FanCurveControl>| #[trigger]
            call_ensures(B::fan_curve, (b,), cap) && match cap {
                None => r is Unsupported,
                Some(f) => exists|log: Seq<Call>| #[trigger]
                    curve_applied(f, log, 0, selection, r),
            },
        Effect::ResetFanCurve => exists|cap: Option<&dyn FanCurveControl>| #[trigger]
            call_ensures(B::fan_curve, (b,), cap) && match cap {
                None => r is Unsupported,
                Some(f) => exists|log: Seq<Call>| #[trigger]
                    curve_reset(f, log, 0, r),
            },
        Effect::ApplyGpuClockRange(selection) => exists|cap: Option<&dyn GpuClockRangeControl>|
            #[trigger]
            call_ensures(B::gpu_clock, (b,), cap) && match cap {
                None => r is Unsupported,
                Some(g) => exists|log: Seq<Call>| #[trigger]
                    clock_applied(g, log, 0, selection, config, r),
            },
        Effect::ResetGpuClocks => exists|cap: Option<&dyn GpuClockRangeControl>| #[trigger]
            call_ensures(B::gpu_clock, (b,), cap) && match cap {
                None => r is Unsupported,
                Some(g) => exists|log: Seq<Call>| #[trigger]
                    clock_reset(g, log, 0, r),
            },
        Effect::PersistState => r is Persist,
    }
}

// ---------------------------------------------------------------------------
// The executor
// ---------------------------------------------------------------------------

/// Whether `step` is what becomes of `state` and of the tuning on `transition`: a
/// new tuning takes the place of the old one; every other transition goes
/// through the reducer, after a resume with the charger read anew.
pub open spec fn step_taken<B: HwBackend>(
    b: &B,
    limits: PowerEnvelopeLimits,
    state: ProfileState,
    config: RuntimeConfig,
    transition: Transition,
    step: Step,
    state_after: ProfileState,
    config_after: RuntimeConfig,
) -> bool {
    match transition {
        Transition::ConfigReload(new_config) => {
            let same = new_config.equals(config);
            &&& step.outcome == StepOutcome::Reconfigured(!same)
            &&& !step.stop
            &&& state_after == state
            &&& config_after == if same {
                config
            } else {
                new_config
            }
        },
        _ => {
            &&& config_after == config
            &&& exists|charger: Option<Result<bool, HpdError>>|
                (if transition is SystemResumed {
                    charger_gave(b, charger)
                } else {
                    charger is None
                }) && #[trigger] stepped(
                    state,
                    transition,
                    limits,
                    config,
                    charger,
                    step,
                    state_after,
                )
        },
    }
}

/// The daemon's state, the backend that it is kept in line with, and what is
/// still to be done.
pub struct Executor<B: HwBackend> {
    pub backend: B,
    pub device_limits: PowerEnvelopeLimits,
    pub config: RuntimeConfig,
    pub state: ProfileState,
    /// The effects that are still due, in order.
    pub due: Vec<Effect>,
    /// Whether the run ends once nothing is due.
    pub last: bool,
    /// Whether the run is over.
    pub ended: bool,
}

impl<B: HwBackend> Executor<B> {
    /// Whether the flag that tells of the lock says what holds.
    pub open spec fn tells_the_lock(self) -> bool {
        self.state.ac_locked == self.state.pinned()
    }

    pub fn new(
        backend: B,
        initial_state: ProfileState,
        device_limits: PowerEnvelopeLimits,
        config: RuntimeConfig,
    ) -> (r: Self)
        ensures
            r.backend == backend,
            r.state == initial_state,
            r.device_limits == device_limits,
            r.config == config,
            r.due@.len() == 0,
            !r.last,
            !r.ended,
    {
        Executor {
            backend,
            device_limits,
            config,
            state: initial_state,
            due: Vec::new(),
            last: false,
            ended: false,
        }
    }

    /// Apply one transition. A new tuning takes the place of the old one; every
    /// other transition goes through the reducer, after a resume with the
    /// charger read anew.
    pub fn step(&mut self, transition: Transition) -> (r: Step)
        ensures
            final(self).backend == old(self).backend,
            final(self).device_limits == old(self).device_limits,
            final(self).due == old(self).due,
            final(self).last == old(self).last,
            final(self).ended == old(self).ended,
            old(self).tells_the_lock() ==> final(self).tells_the_lock(),
            step_taken(
                &old(self).backend,
                old(self).device_limits,
                old(self).state,
                old(self).config,
                transition,
                r,
                final(self).state,
                final(self).config,
            ),
    {
        if let Transition::ConfigReload(config) = transition {
            if config == self.config {
                return Step { outcome: StepOutcome::Reconfigured(false), stop: false };
            }
            self.config = config;
            return Step { outcome: StepOutcome::Reconfigured(true), stop: false };
        }
        let charger = if matches!(transition, Transition::SystemResumed) {
            read_charger(&self.backend)
        } else {
            None
        };
        advance(&mut self.state, transition, &self.device_limits, &self.config, &charger)
    }

    /// Carry out one effect. What is left to do is for the caller: to keep the
    /// state, or to apply a transition that brings the state back in line with
    /// the hardware.
    pub fn handle_effect(&self, effect: &Effect) -> (r: FollowUp)
        ensures
            handled(&self.backend, self.config, *effect, r),
    {
        match effect {
            Effect::ApplyPowerEnvelope(target) => {
                let cap = self.backend.power();
                apply_envelope(&mut Recorded::new(cap.0), target)
            },
            Effect::ApplyPlatformProfile(profile) => match self.backend.profile() {
                None => FollowUp::Unsupported,
                Some(p) => apply_profile(&mut Recorded::new(p), profile),
            },
            Effect::ApplyChargeThreshold(threshold) => match self.backend.charge() {
                None => FollowUp::Unsupported,
                Some(c) => apply_threshold(&mut Recorded::new(c), *threshold),
            },
            Effect::ApplyFanCurve(selection) => match self.backend.fan_curve() {
                None => FollowUp::Unsupported,
                Some(f) => apply_curve(&mut Recorded::new(f), selection),
            },
            Effect::ResetFanCurve => match self.backend.fan_curve() {
                None => FollowUp::Unsupported,
                Some(f) => reset_curve(&mut Recorded::new(f)),
            },
            Effect::ApplyGpuClockRange(selection) => match self.backend.gpu_clock() {
                None => FollowUp::Unsupported,
                Some(g) => apply_clock(&mut Recorded::new(g), selection, &self.config),
            },
            Effect::ResetGpuClocks => match self.backend.gpu_clock() {
                None => FollowUp::Unsupported,
                Some(g) => reset_clock(&mut Recorded::new(g)),
            },
            Effect::PersistState => FollowUp::Persist,
        }
    }
}

// ---------------------------------------------------------------------------
// Laws
// ---------------------------------------------------------------------------

/// What the hardware is told for an effect. The range of a GPU tier is found out first.
pub open spec fn order_of(effect: Effect) -> Option<Order> {
    match effect {
        Effect::ApplyPowerEnvelope(target) => Some(Order::Target(target)),
        Effect::ApplyPlatformProfile(profile) => Some(Order::Profile(profile)),
        Effect::ApplyChargeThreshold(limit) => Some(Order::Threshold(limit)),
        Effect::ApplyFanCurve(selection) => Some(Order::Curve(selection)),
        Effect::ResetFanCurve => Some(Order::AutoFans),
        Effect::ApplyGpuClockRange(GpuClockSelection::Custom(range)) => Some(Order::Range(range)),
        Effect::ApplyGpuClockRange(GpuClockSelection::Preset(_)) => None,
        Effect::ResetGpuClocks => Some(Order::AutoClock),
        Effect::PersistState => None,
    }
}

/// Whether a transition brings the state in line with what the hardware was found to
/// hold.
pub open spec fn tells_what_is_held(held: Holding, transition: Transition) -> bool {
    match held {
        Holding::Target(Ok(target)) => transition == Transition::SyncPowerTarget(target),
        Holding::Profile(Ok(profile)) => transition == Transition::SyncPlatformProfile(profile),
        Holding::Threshold(Ok(limit)) => transition == Transition::SyncChargeThreshold(limit),
        Holding::Curve(Ok(selection)) => transition == Transition::SyncFanCurve(selection),
        Holding::Range(Ok(range)) => transition == Transition::SyncGpuClockRange(range),
        _ => false,
    }
}

/// Whether `r` follows from telling the hardware `order` at call `at` and, where it
/// refused, asking what it holds right after: nothing where it took the order, else what
/// it holds; nothing more is told.
pub open spec fn follows_from_the_order(log: Seq<Call>, at: int, order: Order, r: FollowUp) -> bool {
    &&& 0 <= at < log.len()
    &&& log[at] matches Call::Told(told, end) && told == order && match end {
        Ok(()) => r is Applied && log.len() == at + 1,
        Err(cause) => {
            &&& log.len() == at + 2
            &&& log[at + 1] matches Call::Asked(held) && match r {
                FollowUp::Sync { cause: c, transition } => c == cause && tells_what_is_held(
                    held,
                    transition,
                ),
                FollowUp::Diverged { cause: c, .. } => c == cause,
                _ => false,
            }
        },
    }
}

/// Carrying out an effect tells the hardware exactly what the effect says. It counts as
/// done only where the hardware took it; where it refused, the state is brought in line
/// with what the hardware holds then. A capability that is not there leaves nothing to do,
/// and to keep the state is left to the caller.
pub proof fn effects_tell_the_hardware_what_they_say<B: HwBackend>(
    b: &B,
    config: RuntimeConfig,
    effect: Effect,
    r: FollowUp,
)
    requires
        handled(b, config, effect, r),
    ensures
        effect is PersistState <==> r is Persist,
        order_of(effect) matches Some(order) ==> r is Unsupported || exists|log: Seq<Call>|
            #[trigger]
            follows_from_the_order(log, 0, order, r),
        order_of(effect) is Some ==> !(r is Skipped),
        effect is ApplyPowerEnvelope ==> !(r is Unsupported),
{
    match effect {
        Effect::ApplyPowerEnvelope(target) => {
            let cap = choose|cap: PowerHandle| #[trigger]
                call_ensures(B::power, (b,), cap) && exists|log: Seq<Call>| #[trigger]
                    envelope_applied(cap.0, log, 0, target, r);
            let log = choose|log: Seq<Call>| #[trigger] envelope_applied(cap.0, log, 0, target, r);
            assert(follows_from_the_order(log, 0, Order::Target(target), r));
        },
        Effect::ApplyPlatformProfile(profile) => {
            let cap = choose|cap: Option<&dyn PlatformProfile>| #[trigger]
                call_ensures(B::profile, (b,), cap) && match cap {
                    None => r is Unsupported,
                    Some(c) => exists|log: Seq<Call>| #[trigger] profile_applied(c, log, 0, profile, r),
                };
            if let Some(c) = cap {
                let log = choose|log: Seq<Call>| #[trigger] profile_applied(c, log, 0, profile, r);
                assert(follows_from_the_order(log, 0, Order::Profile(profile), r));
            }
        },
        Effect::ApplyChargeThreshold(threshold) => {
            let cap = choose|cap: Option<&dyn ChargeControl>| #[trigger]
                call_ensures(B::charge, (b,), cap) && match cap {
                    None => r is Unsupported,
                    Some(c) => exists|log: Seq<Call>| #[trigger] threshold_applied(c, log, 0, threshold, r),
                };
            if let Some(c) = cap {
                let log = choose|log: Seq<Call>| #[trigger] threshold_applied(c, log, 0, threshold, r);
                assert(follows_from_the_order(log, 0, Order::Threshold(threshold), r));
            }
        },
        Effect::ApplyFanCurve(selection) => {
            let cap = choose|cap: Option<&dyn FanCurveControl>| #[trigger]
                call_ensures(B::fan_curve, (b,), cap) && match cap {
                    None => r is Unsupported,
                    Some(c) => exists|log: Seq<Call>| #[trigger] curve_applied(c, log, 0, selection, r),
                };
            if let Some(c) = cap {
                let log = choose|log: Seq<Call>| #[trigger] curve_applied(c, log, 0, selection, r);
                assert(follows_from_the_order(log, 0, Order::Curve(selection), r));
            }
        },
        Effect::ResetFanCurve => {
            let cap = choose|cap: Option<&dyn FanCurveControl>| #[trigger]
                call_ensures(B::fan_curve, (b,), cap) && match cap {
                    None => r is Unsupported,
                    Some(c) => exists|log: Seq<Call>| #[trigger] curve_reset(c, log, 0, r),
                };
            if let Some(c) = cap {
                let log = choose|log: Seq<Call>| #[trigger] curve_reset(c, log, 0, r);
                assert(follows_from_the_order(log, 0, Order::AutoFans, r));
            }
        },
        Effect::ApplyGpuClockRange(GpuClockSelection::Custom(range)) => {
            let cap = choose|cap: Option<&dyn GpuClockRangeControl>| #[trigger]
                call_ensures(B::gpu_clock, (b,), cap) && match cap {
                    None => r is Unsupported,
                    Some(c) => exists|log: Seq<Call>| #[trigger] clock_applied(c, log, 0, GpuClockSelection::Custom(range), config, r),
                };
            if let Some(c) = cap {
                let log = choose|log: Seq<Call>| #[trigger] clock_applied(c, log, 0, GpuClockSelection::Custom(range), config, r);
                assert(follows_from_the_order(log, 0, Order::Range(range), r));
            }
        },
        Effect::ResetGpuClocks => {
            let cap = choose|cap: Option<&dyn GpuClockRangeControl>| #[trigger]
                call_ensures(B::gpu_clock, (b,), cap) && match cap {
                    None => r is Unsupported,
                    Some(c) => exists|log: Seq<Call>| #[trigger] clock_reset(c, log, 0, r),
                };
            if let Some(c) = cap {
                let log = choose|log: Seq<Call>| #[trigger] clock_reset(c, log, 0, r);
                assert(follows_from_the_order(log, 0, Order::AutoClock, r));
            }
        },
        _ => {},
    }
}

/// The GPU clock of a tier is held to the tier's own range on the clocks that the device
/// told first; where those are not known, nothing is told.
pub proof fn tiers_are_held_to_their_range<C: GpuClockRangeControl + ?Sized>(
    c: &C,
    log: Seq<Call>,
    tier: FanCurvePreset,
    config: RuntimeConfig,
    r: FollowUp,
)
    requires
        clock_applied(c, log, 0, GpuClockSelection::Preset(tier), config, r),
    ensures
        log.len() > 0 && log[0] is Asked,
        log[0] matches Call::Asked(Holding::Clocks(clocks)) && match clocks {
            Err(e) => log.len() == 1 && r == FollowUp::Skipped(e),
            Ok(clocks) => if inference::tier_countable(tier, clocks, config.gpu_clock_fractions) {
                follows_from_the_order(
                    log,
                    1,
                    Order::Range(
                        inference::tier_range(tier, clocks, config.gpu_clock_fractions),
                    ),
                    r,
                )
            } else {
                r is Skipped && log.len() == 1
            },
        },
{
}

/// Where the hardware refused and what it holds could be read, the state holds that
/// afterwards, and nothing else changed.
pub proof fn refused_writes_bring_the_state_in_line(
    state: ProfileState,
    held: Holding,
    transition: Transition,
    limits: PowerEnvelopeLimits,
    config: RuntimeConfig,
)
    requires
        tells_what_is_held(held, transition),
    ensures
        reducer::next(state, transition, limits, config) matches Ok(o) && o.effects.len() == 0 && (
        match held {
            Holding::Target(Ok(target)) => o.state == ProfileState {
                power_target: target,
                ..state
            },
            Holding::Profile(Ok(profile)) => o.state == ProfileState {
                active_profile: profile,
                ..state
            },
            Holding::Threshold(Ok(limit)) => o.state == ProfileState {
                charge_end_threshold: limit,
                ..state
            },
            Holding::Curve(Ok(selection)) => o.state == ProfileState {
                active_fan_curve: selection,
                ..state
            },
            Holding::Range(Ok(None)) => o.state == ProfileState { active_gpu_clock: None, ..state },
            Holding::Range(Ok(Some(range))) => o.state == ProfileState {
                active_gpu_clock: Some(GpuClockSelection::Custom(range)),
                ..state
            },
            _ => false,
        }),
{
}

/// A step tells the lock, stops on a shutdown alone, takes a new tuning only on a reload,
/// and after a wake-up goes by the charger as it was found.
pub proof fn steps_keep_their_bounds<B: HwBackend>(
    b: &B,
    limits: PowerEnvelopeLimits,
    state: ProfileState,
    config: RuntimeConfig,
    transition: Transition,
    step: Step,
    after: ProfileState,
    tuning: RuntimeConfig,
)
    requires
        step_taken(b, limits, state, config, transition, step, after, tuning),
    ensures
        step.stop <==> transition is Shutdown,
        !(transition is ConfigReload) ==> tuning == config,
        transition matches Transition::ConfigReload(new) ==> after == state && (tuning == new || (
        tuning == config && new.equals(config))),
        step.outcome is Refused ==> after == state,
        step.outcome is Applied ==> after.ac_locked == (after.is_ac_connected
            && after.ac_max_performance),
        transition is SystemResumed && step.outcome is Applied ==> exists|
            charger: Option<Result<bool, HpdError>>,
        | #[trigger]
            charger_gave(b, charger) && (charger matches Some(Ok(plugged))
                ==> after.is_ac_connected == plugged),
        step.outcome matches StepOutcome::Applied(effects) ==> (transition is Shutdown
            ==> effects@ == seq![Effect::PersistState]),
{
    if transition is SystemResumed && step.outcome is Applied {
        let charger = choose|charger: Option<Result<bool, HpdError>>|
            charger_gave(b, charger) && #[trigger] stepped(
                state,
                transition,
                limits,
                config,
                charger,
                step,
                after,
            );
        let known = with_charger(state, charger);
        assert(charger_gave(b, charger));
        assert(reducer::next(known, transition, limits, config) matches Ok(o)
            && o.state.is_ac_connected == known.is_ac_connected);
    }
}

/// A step that is refused leaves the state as it was, whatever the charger was found to be;
/// one that is applied starts from the charger as it was found, and tells the lock anew.
pub proof fn refused_steps_leave_the_state(
    state: &mut ProfileState,
    transition: Transition,
    limits: PowerEnvelopeLimits,
    config: RuntimeConfig,
    charger: Option<Result<bool, HpdError>>,
    r: Step,
)
    requires
        call_ensures(advance, (state, transition, &limits, &config, &charger), r),
    ensures
        r.outcome is Refused ==> *final(state) == *old(state),
        r.outcome is Applied ==> final(state).ac_locked == (final(state).is_ac_connected
            && final(state).ac_max_performance),
        r.stop <==> transition is Shutdown,
        ({
            let known = if charger matches Some(Ok(_)) {
                ProfileState { is_ac_connected: charger->0->Ok_0, ..*old(state) }
            } else {
                *old(state)
            };
            &&& r.outcome is Applied <==> reducer::next(known, transition, limits, config) is Ok
            &&& r.outcome is Refused <==> reducer::next(known, transition, limits, config) is Err
            &&& reducer::next(known, transition, limits, config) matches Ok(o) ==> *final(state) == (
            ProfileState { ac_locked: final(state).ac_locked, ..o.state })
        }),
{
}

} // verus!
