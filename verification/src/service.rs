//! The daemon's own bus interface: what a request must meet before it is
//! carried out, and what the properties report.
//!
//! A request is handled in two parts, with the authority asked in between:
//! `check` does what can be done first and names the actions that the
//! caller needs authorization for; `conclude` takes the authority's answer and
//! gives the transition.

use crate::actions::PolkitAction;
use crate::backend::HwBackend;
use crate::charge;
use crate::charge::{MAX_CHARGE_THRESHOLD, MIN_CHARGE_THRESHOLD};
use crate::error::HpdError;
use crate::fan_curve::{
    ActiveFanCurves, FanCurve, FanCurveConstraints, FanCurveControl, FanCurvePoint, FanCurvePreset,
    FanCurveSelection, FAN_CURVE_POINTS,
};
use crate::gpu_clock::{
    GpuClockConstraints, GpuClockRange, GpuClockRangeControl, GpuClockSelection,
};
use crate::power::PowerEnvelopeLimits;
use crate::profile::{ProfileName, TdpPreset};
use crate::profile;
use crate::request::RequestError;
use crate::state::ProfileState;
use crate::text;
use crate::transition::Transition;
use vstd::prelude::*;

verus! {

// ---------------------------------------------------------------------------
// Requests
// ---------------------------------------------------------------------------

/// What a client may ask for.
#[derive(Debug)]
pub enum Request {
    SetSpl(u32),
    SetPreset(String),
    SetChargeThreshold(u8),
    SetAcMaxPerformance(bool),
    SetProfile(String),
    SetCoolingLevel(String),
    SetFanAuto,
    ResetFanCurve,
    SetFanCurve { cpu: Vec<(u8, u8)>, gpu: Vec<(u8, u8)> },
    SetGpuClockRange { min_mhz: u32, max_mhz: u32 },
    EnableGpuAutoFollow,
    ResetGpuClocks,
    RestoreDefaults,
}

/// What is done once the caller is authorized.
#[derive(Debug)]
pub enum Intent {
    /// This transition.
    Make(Transition),
    /// The preset of this name.
    NamedPreset(String),
    /// The profile of this name.
    NamedProfile(String),
}

/// A request that may be carried out, if the caller is authorized for each of
/// these actions.
#[derive(Debug)]
pub struct Pending {
    pub actions: Vec<PolkitAction>,
    pub intent: Intent,
}

/// Why a request is turned down while AC pins the levers.
pub open spec fn locked_text() -> Seq<char> {
    "Locked: on AC power the device is pinned to maximum performance (Performance / Max TDP / Aggressive). Unplug to adjust (the battery charge limit stays editable)."@
}

impl Request {
    /// Whether the request is turned down while AC pins the levers.
    pub open spec fn needs_unlocked(self) -> bool {
        !(self is SetChargeThreshold || self is SetAcMaxPerformance)
    }

    /// The actions that the caller needs authorization for.
    pub open spec fn needs(self) -> Seq<PolkitAction> {
        match self {
            Request::SetSpl(_) => seq![PolkitAction::SetTdp],
            Request::SetPreset(_) => seq![PolkitAction::SetTdp],
            Request::SetChargeThreshold(_) => seq![PolkitAction::SetCharge],
            Request::RestoreDefaults => seq![
                PolkitAction::SetTdp,
                PolkitAction::SetCharge,
                PolkitAction::SetProfile,
            ],
            _ => seq![PolkitAction::SetProfile],
        }
    }

    fn is_refused_while_locked(&self) -> (r: bool)
        ensures
            r == self.needs_unlocked(),
    {
        match self {
            Request::SetChargeThreshold(_) => false,
            Request::SetAcMaxPerformance(_) => false,
            _ => true,
        }
    }

    /// The actions that the caller needs authorization for.
    pub fn actions(&self) -> (r: Vec<PolkitAction>)
        ensures
            r@ == self.needs(),
    {
        let mut actions: Vec<PolkitAction> = Vec::new();
        match self {
            Request::SetSpl(_) => {
                actions.push(PolkitAction::SetTdp);
            },
            Request::SetPreset(_) => {
                actions.push(PolkitAction::SetTdp);
            },
            Request::SetChargeThreshold(_) => {
                actions.push(PolkitAction::SetCharge);
            },
            Request::RestoreDefaults => {
                actions.push(PolkitAction::SetTdp);
                actions.push(PolkitAction::SetCharge);
                actions.push(PolkitAction::SetProfile);
            },
            _ => {
                actions.push(PolkitAction::SetProfile);
            },
        }
        assert(actions@ =~= self.needs());
        actions
    }
}

// ---------------------------------------------------------------------------
// Fan curves from clients
// ---------------------------------------------------------------------------

/// The points that pairs of temperature and duty stand for.
pub open spec fn points_of(pairs: Seq<(u8, u8)>) -> Seq<FanCurvePoint> {
    pairs.map_values(|p: (u8, u8)| FanCurvePoint { temp_c: p.0, pwm: p.1 })
}

/// Why pairs that are not as many as a curve has points are turned down.
pub open spec fn wrong_count_text(count: nat) -> Seq<char> {
    "fan curve must have exactly "@ + text::dec(FAN_CURVE_POINTS as nat)
        + " (temp_c, pwm) points, got "@ + text::dec(count)
}

/// Whether `r` is the curve that the pairs draw.
pub open spec fn curve_parsed(pairs: Seq<(u8, u8)>, r: Result<FanCurve, RequestError>) -> bool {
    if pairs.len() == FAN_CURVE_POINTS {
        r matches Ok(curve) && curve.points@ == points_of(pairs)
    } else {
        r matches Err(e) && e.is_invalid(wrong_count_text(pairs.len()))
    }
}

/// The curve that pairs of temperature and duty draw.
pub fn parse_fan_curve(points: Vec<(u8, u8)>) -> (r: Result<FanCurve, RequestError>)
    ensures
        curve_parsed(points@, r),
{
    if points.len() != FAN_CURVE_POINTS {
        let mut words = "fan curve must have exactly ".to_owned();
        text::push_dec(&mut words, FAN_CURVE_POINTS as u64);
        words.append(" (temp_c, pwm) points, got ");
        text::push_dec(&mut words, points.len() as u64);
        return Err(RequestError::InvalidArgs(words));
    }
    let array = [
        FanCurvePoint::new(points[0].0, points[0].1),
        FanCurvePoint::new(points[1].0, points[1].1),
        FanCurvePoint::new(points[2].0, points[2].1),
        FanCurvePoint::new(points[3].0, points[3].1),
        FanCurvePoint::new(points[4].0, points[4].1),
        FanCurvePoint::new(points[5].0, points[5].1),
        FanCurvePoint::new(points[6].0, points[6].1),
        FanCurvePoint::new(points[7].0, points[7].1),
    ];
    assert(array@ =~= points_of(points@));
    Ok(FanCurve::new(array))
}

/// What the report of a broken rule reads.
pub open spec fn violation_text(words: Seq<char>) -> Seq<char> {
    "State invariant violated: "@ + words
}

/// Whether `r` is the verdict on two curves, on a device with these limits.
pub open spec fn curves_judged(
    cpu: FanCurve,
    gpu: FanCurve,
    constraints: FanCurveConstraints,
    r: Result<(), RequestError>,
) -> bool {
    match cpu.defect_against(constraints) {
        Some(words) => r matches Err(e) && e.is_invalid("cpu curve, "@ + violation_text(words)),
        None => match gpu.defect_against(constraints) {
            Some(words) => r matches Err(e) && e.is_invalid("gpu curve, "@ + violation_text(words)),
            None => r is Ok,
        },
    }
}

/// Hold two curves against the limits of the device.
pub fn judge_curves(cpu: &FanCurve, gpu: &FanCurve, constraints: &FanCurveConstraints) -> (r: Result<
    (),
    RequestError,
>)
    ensures
        curves_judged(*cpu, *gpu, *constraints, r),
{
    if let Err(e) = cpu.validate_against(constraints) {
        let mut words = "cpu curve, ".to_owned();
        words.append(e.to_string().as_str());
        return Err(RequestError::InvalidArgs(words));
    }
    if let Err(e) = gpu.validate_against(constraints) {
        let mut words = "gpu curve, ".to_owned();
        words.append(e.to_string().as_str());
        return Err(RequestError::InvalidArgs(words));
    }
    Ok(())
}

/// Whether `r` is what becomes of a request for two curves of one's own.
pub open spec fn curves_admitted<B: HwBackend + ?Sized>(
    b: &B,
    cpu: Seq<(u8, u8)>,
    gpu: Seq<(u8, u8)>,
    r: Result<Intent, RequestError>,
) -> bool {
    exists|cap: Option<&dyn FanCurveControl>| #[trigger]
        call_ensures(B::fan_curve, (b,), cap) && match cap {
            None => r matches Err(e) && e.is_failure(
                "this device has no programmable fan curve"@,
            ),
            Some(f) => if cpu.len() != FAN_CURVE_POINTS {
                r matches Err(e) && e.is_invalid(wrong_count_text(cpu.len()))
            } else if gpu.len() != FAN_CURVE_POINTS {
                r matches Err(e) && e.is_invalid(wrong_count_text(gpu.len()))
            } else {
                exists|constraints: FanCurveConstraints, cpu_curve: FanCurve, gpu_curve: FanCurve|
                    #![trigger limits_returned(f, constraints), points_match(cpu_curve, cpu), points_match(gpu_curve, gpu)]
                    limits_returned(f, constraints) && points_match(cpu_curve, cpu) && points_match(
                        gpu_curve,
                        gpu,
                    ) && match r {
                        Ok(intent) => curves_judged(cpu_curve, gpu_curve, constraints, Ok(()))
                            && intent == Intent::Make(
                            Transition::SetCustomFanCurve { cpu: cpu_curve, gpu: gpu_curve },
                        ),
                        Err(e) => curves_judged(cpu_curve, gpu_curve, constraints, Err(e)),
                    }
            },
        }
}

/// Whether a curve is the one that the pairs draw.
pub open spec fn points_match(curve: FanCurve, pairs: Seq<(u8, u8)>) -> bool {
    curve.points@ == points_of(pairs)
}

/// Whether the fans told these limits.
pub open spec fn limits_returned<F: FanCurveControl + ?Sized>(
    f: &F,
    constraints: FanCurveConstraints,
) -> bool {
    call_ensures(F::constraints, (f,), constraints)
}

fn ask_limits<F: FanCurveControl + ?Sized>(f: &F) -> (r: FanCurveConstraints)
    ensures
        limits_returned(f, r),
{
    f.constraints()
}

fn admit_curves<B: HwBackend + ?Sized>(b: &B, cpu: Vec<(u8, u8)>, gpu: Vec<(u8, u8)>) -> (r: Result<
    Intent,
    RequestError,
>)
    ensures
        curves_admitted(b, cpu@, gpu@, r),
{
    let cap = b.fan_curve();
    assert(call_ensures(B::fan_curve, (b,), cap));
    let f = match cap {
        Some(f) => f,
        None => {
            return Err(
                RequestError::Failed("this device has no programmable fan curve".to_owned()),
            );
        },
    };
    let ghost cpu_pairs = cpu@;
    let ghost gpu_pairs = gpu@;
    let cpu_curve = match parse_fan_curve(cpu) {
        Ok(curve) => curve,
        Err(e) => {
            return Err(e);
        },
    };
    let gpu_curve = match parse_fan_curve(gpu) {
        Ok(curve) => curve,
        Err(e) => {
            return Err(e);
        },
    };
    let constraints = ask_limits(f);
    assert(limits_returned(f, constraints) && points_match(cpu_curve, cpu_pairs) && points_match(
        gpu_curve,
        gpu_pairs,
    ));
    match judge_curves(&cpu_curve, &gpu_curve, &constraints) {
        Ok(()) => Ok(
            Intent::Make(Transition::SetCustomFanCurve { cpu: cpu_curve, gpu: gpu_curve }),
        ),
        Err(e) => Err(e),
    }
}

// ---------------------------------------------------------------------------
// GPU clocks from clients
// ---------------------------------------------------------------------------

/// Whether `r` is the verdict on a clock range, the device's clocks having been
/// read as `constraints`.
pub open spec fn range_judged(
    range: GpuClockRange,
    constraints: Result<GpuClockConstraints, HpdError>,
    r: Result<(), RequestError>,
) -> bool {
    match constraints {
        Err(e) => exists|words: Seq<char>| #[trigger]
            e.reads(words) && (r matches Err(refusal) && refusal.is_failure(
                "could not read GPU clock constraints: "@ + words,
            )),
        Ok(c) => match range.defect(c) {
            Some(words) => r matches Err(refusal) && refusal.is_invalid(violation_text(words)),
            None => r is Ok,
        },
    }
}

/// Hold a clock range against the clocks of the device.
pub fn judge_range(range: &GpuClockRange, constraints: Result<GpuClockConstraints, HpdError>) -> (r:
    Result<(), RequestError>)
    ensures
        range_judged(*range, constraints, r),
{
    match constraints {
        Err(e) => {
            let reason = e.to_string();
            let mut words = "could not read GPU clock constraints: ".to_owned();
            words.append(reason.as_str());
            assert(e.reads(reason@));
            Err(RequestError::Failed(words))
        },
        Ok(c) => match range.validate_against(&c) {
            Ok(()) => Ok(()),
            Err(e) => Err(RequestError::InvalidArgs(e.to_string())),
        },
    }
}

/// Why a request for the GPU clock is turned down on a device without one.
pub open spec fn no_clock_text() -> Seq<char> {
    "this device has no programmable GPU clock range"@
}

/// Whether the GPU told these clocks.
pub open spec fn clocks_returned<G: GpuClockRangeControl + ?Sized>(
    g: &G,
    r: Result<GpuClockConstraints, HpdError>,
) -> bool {
    call_ensures(G::constraints, (g,), r)
}

fn ask_clocks<G: GpuClockRangeControl + ?Sized>(g: &G) -> (r: Result<GpuClockConstraints, HpdError>)
    ensures
        clocks_returned(g, r),
{
    g.constraints()
}

/// Whether `r` is what becomes of a request for a clock range.
pub open spec fn range_admitted<B: HwBackend + ?Sized>(
    b: &B,
    range: GpuClockRange,
    r: Result<Intent, RequestError>,
) -> bool {
    exists|cap: Option<&dyn GpuClockRangeControl>| #[trigger]
        call_ensures(B::gpu_clock, (b,), cap) && match cap {
            None => r matches Err(e) && e.is_failure(no_clock_text()),
            Some(g) => exists|constraints: Result<GpuClockConstraints, HpdError>| #[trigger]
                clocks_returned(g, constraints) && match r {
                    Ok(intent) => range_judged(range, constraints, Ok(())) && intent
                        == Intent::Make(
                        Transition::SetGpuClockRange {
                            min_mhz: range.min_mhz,
                            max_mhz: range.max_mhz,
                        },
                    ),
                    Err(e) => range_judged(range, constraints, Err(e)),
                },
        }
}

fn admit_range<B: HwBackend + ?Sized>(b: &B, range: GpuClockRange) -> (r: Result<
    Intent,
    RequestError,
>)
    ensures
        range_admitted(b, range, r),
{
    let cap = b.gpu_clock();
    assert(call_ensures(B::gpu_clock, (b,), cap));
    let g = match cap {
        Some(g) => g,
        None => {
            return Err(
                RequestError::Failed("this device has no programmable GPU clock range".to_owned()),
            );
        },
    };
    let constraints = ask_clocks(g);
    assert(clocks_returned(g, constraints));
    match judge_range(&range, constraints) {
        Ok(()) => Ok(
            Intent::Make(
                Transition::SetGpuClockRange { min_mhz: range.min_mhz, max_mhz: range.max_mhz },
            ),
        ),
        Err(e) => Err(e),
    }
}

/// Whether `r` is what becomes of a request that the GPU clock follow the power
/// envelope.
pub open spec fn follow_admitted<B: HwBackend + ?Sized>(
    b: &B,
    r: Result<Intent, RequestError>,
) -> bool {
    exists|cap: Option<&dyn GpuClockRangeControl>| #[trigger]
        call_ensures(B::gpu_clock, (b,), cap) && match cap {
            None => r matches Err(e) && e.is_failure(no_clock_text()),
            Some(_) => r == Ok::<Intent, RequestError>(
                Intent::Make(Transition::EnableGpuAutoFollow),
            ),
        }
}

fn admit_follow<B: HwBackend + ?Sized>(b: &B) -> (r: Result<Intent, RequestError>)
    ensures
        follow_admitted(b, r),
{
    match b.gpu_clock() {
        Some(_) => Ok(Intent::Make(Transition::EnableGpuAutoFollow)),
        None => Err(
            RequestError::Failed("this device has no programmable GPU clock range".to_owned()),
        ),
    }
}

// ---------------------------------------------------------------------------
// Admission
// ---------------------------------------------------------------------------

/// Whether `r` is what becomes of a request on an unlocked device, before the
/// authority is asked.
pub open spec fn checked<B: HwBackend + ?Sized>(
    b: &B,
    request: Request,
    r: Result<Intent, RequestError>,
) -> bool {
    match request {
        Request::SetSpl(watts) => r == Ok::<Intent, RequestError>(
            Intent::Make(Transition::SetSpl(watts)),
        ),
        Request::SetPreset(name) => r == Ok::<Intent, RequestError>(Intent::NamedPreset(name)),
        Request::SetChargeThreshold(threshold) => if charge::chargeable(threshold) {
            r == Ok::<Intent, RequestError>(
                Intent::Make(Transition::ChargeThresholdChanged(threshold)),
            )
        } else {
            r matches Err(e) && e.is_invalid("Charge limit must be between 20 and 100"@)
        },
        Request::SetAcMaxPerformance(enabled) => r == Ok::<Intent, RequestError>(
            Intent::Make(Transition::SetAcMaxPerformance(enabled)),
        ),
        Request::SetProfile(name) => r == Ok::<Intent, RequestError>(Intent::NamedProfile(name)),
        Request::SetCoolingLevel(level) => match FanCurvePreset::named(level@) {
            Some(preset) => r == Ok::<Intent, RequestError>(
                Intent::Make(Transition::SetCoolingLevel(preset)),
            ),
            None => r matches Err(e) && e.is_invalid(
                violation_text(
                    "unknown fan curve preset '"@ + text::ascii_lower(text::trimmed(level@))
                        + "' (expected silent|balanced|aggressive)"@,
                ),
            ),
        },
        Request::SetFanAuto => r == Ok::<Intent, RequestError>(
            Intent::Make(Transition::EnableFanAuto),
        ),
        Request::ResetFanCurve => r == Ok::<Intent, RequestError>(
            Intent::Make(Transition::ResetFanCurve),
        ),
        Request::SetFanCurve { cpu, gpu } => curves_admitted(b, cpu@, gpu@, r),
        Request::SetGpuClockRange { min_mhz, max_mhz } => range_admitted(
            b,
            GpuClockRange { min_mhz, max_mhz },
            r,
        ),
        Request::EnableGpuAutoFollow => follow_admitted(b, r),
        Request::ResetGpuClocks => r == Ok::<Intent, RequestError>(
            Intent::Make(Transition::ResetGpuClocks),
        ),
        Request::RestoreDefaults => r == Ok::<Intent, RequestError>(
            Intent::Make(Transition::RestoreDefaults),
        ),
    }
}

fn check_request<B: HwBackend + ?Sized>(b: &B, request: Request) -> (r: Result<Intent, RequestError>)
    ensures
        checked(b, request, r),
{
    match request {
        Request::SetSpl(watts) => Ok(Intent::Make(Transition::SetSpl(watts))),
        Request::SetPreset(name) => Ok(Intent::NamedPreset(name)),
        Request::SetChargeThreshold(threshold) => {
            if threshold < MIN_CHARGE_THRESHOLD || threshold > MAX_CHARGE_THRESHOLD {
                return Err(
                    RequestError::InvalidArgs("Charge limit must be between 20 and 100".to_owned()),
                );
            }
            Ok(Intent::Make(Transition::ChargeThresholdChanged(threshold)))
        },
        Request::SetAcMaxPerformance(enabled) => Ok(
            Intent::Make(Transition::SetAcMaxPerformance(enabled)),
        ),
        Request::SetProfile(name) => Ok(Intent::NamedProfile(name)),
        Request::SetCoolingLevel(level) => match FanCurvePreset::from_str(level.as_str()) {
            Ok(preset) => Ok(Intent::Make(Transition::SetCoolingLevel(preset))),
            Err(e) => Err(RequestError::InvalidArgs(e.to_string())),
        },
        Request::SetFanAuto => Ok(Intent::Make(Transition::EnableFanAuto)),
        Request::ResetFanCurve => Ok(Intent::Make(Transition::ResetFanCurve)),
        Request::SetFanCurve { cpu, gpu } => admit_curves(b, cpu, gpu),
        Request::SetGpuClockRange { min_mhz, max_mhz } => admit_range(
            b,
            GpuClockRange { min_mhz, max_mhz },
        ),
        Request::EnableGpuAutoFollow => admit_follow(b),
        Request::ResetGpuClocks => Ok(Intent::Make(Transition::ResetGpuClocks)),
        Request::RestoreDefaults => Ok(Intent::Make(Transition::RestoreDefaults)),
    }
}

/// Whether `r` is what becomes of a request before the authority is asked.
pub open spec fn admitted<B: HwBackend + ?Sized>(
    state: ProfileState,
    b: &B,
    request: Request,
    r: Result<Pending, RequestError>,
) -> bool {
    if state.ac_locked && request.needs_unlocked() {
        r matches Err(e) && e.is_failure(locked_text())
    } else {
        match r {
            Ok(pending) => pending.actions@ == request.needs() && checked(
                b,
                request,
                Ok(pending.intent),
            ),
            Err(e) => checked(b, request, Err(e)),
        }
    }
}

/// Check a request before the authority is asked.
pub fn check<B: HwBackend + ?Sized>(state: &ProfileState, b: &B, request: Request) -> (r: Result<
    Pending,
    RequestError,
>)
    ensures
        admitted(*state, b, request, r),
{
    if state.ac_locked && request.is_refused_while_locked() {
        return Err(
            RequestError::Failed(
                "Locked: on AC power the device is pinned to maximum performance (Performance / Max TDP / Aggressive). Unplug to adjust (the battery charge limit stays editable).".to_owned(),
            ),
        );
    }
    let actions = request.actions();
    match check_request(b, request) {
        Ok(intent) => Ok(Pending { actions, intent }),
        Err(e) => Err(e),
    }
}

/// Whether `r` is what becomes of a request that the authority has decided on.
pub open spec fn concluded(
    intent: Intent,
    authorized: bool,
    r: Result<Transition, RequestError>,
) -> bool {
    if !authorized {
        r matches Err(e) && e.is_denial("Not authorized by polkit"@)
    } else {
        match intent {
            Intent::Make(transition) => r == Ok::<Transition, RequestError>(transition),
            Intent::NamedPreset(name) => match TdpPreset::named(name@) {
                Some(preset) => r == Ok::<Transition, RequestError>(Transition::SetPreset(preset)),
                None => r matches Err(e) && e.is_invalid(profile::unknown_preset(name@)),
            },
            Intent::NamedProfile(name) => if text::trimmed(name@).len() == 0 {
                r matches Err(e) && e.is_invalid("profile name cannot be empty"@)
            } else {
                r matches Ok(Transition::SetProfile(profile)) && profile.is_named(name@)
            },
        }
    }
}

/// What becomes of a request that the authority has decided on.
pub fn conclude(intent: Intent, authorized: bool) -> (r: Result<Transition, RequestError>)
    ensures
        concluded(intent, authorized, r),
{
    if !authorized {
        return Err(RequestError::AuthFailed("Not authorized by polkit".to_owned()));
    }
    match intent {
        Intent::Make(transition) => Ok(transition),
        Intent::NamedPreset(name) => match TdpPreset::from_str(name.as_str()) {
            Ok(preset) => Ok(Transition::SetPreset(preset)),
            Err(words) => Err(RequestError::InvalidArgs(words)),
        },
        Intent::NamedProfile(name) => match ProfileName::from_str(name.as_str()) {
            Ok(profile) => Ok(Transition::SetProfile(profile)),
            Err(words) => Err(RequestError::InvalidArgs(words)),
        },
    }
}

/// Why a request is turned down where the executor is gone.
pub fn executor_down() -> (r: RequestError)
    ensures
        r.is_failure("Internal daemon error: Executor down"@),
{
    RequestError::Failed("Internal daemon error: Executor down".to_owned())
}

// ---------------------------------------------------------------------------
// Properties
// ---------------------------------------------------------------------------

/// The sustained power limit, in watts.
pub fn current_spl(state: &ProfileState) -> (r: u32)
    ensures
        r == state.power_target.spl.0 / 1000,
{
    state.power_target.spl.as_watts()
}

/// The platform profile.
pub fn active_profile(state: &ProfileState) -> (r: String)
    ensures
        r@ == state.active_profile.name(),
{
    state.active_profile.to_string()
}

/// The range that the hardware accepts, in watts: the lowest and highest
/// sustained limit, and the highest boost limits.
pub fn get_hardware_limits(limits: &PowerEnvelopeLimits) -> (r: (u32, u32, u32, u32))
    ensures
        r.0 == limits.spl_min.0 / 1000,
        r.1 == limits.spl_max.0 / 1000,
        r.2 == limits.sppt_max.0 / 1000,
        r.3 == limits.fppt_max.0 / 1000,
{
    (
        limits.spl_min.as_watts(),
        limits.spl_max.as_watts(),
        limits.sppt_max.as_watts(),
        limits.fppt_max.as_watts(),
    )
}

/// The word for what the fans run.
pub fn fan_curve(state: &ProfileState) -> (r: String)
    ensures
        r@ == (match state.active_fan_curve {
            None => "auto"@,
            Some(FanCurveSelection::Preset(preset)) => preset.name(),
            Some(FanCurveSelection::Custom { .. }) => "custom"@,
        }),
{
    match state.active_fan_curve {
        None => "auto".to_owned(),
        Some(FanCurveSelection::Preset(preset)) => preset.as_str().to_owned(),
        Some(FanCurveSelection::Custom { .. }) => "custom".to_owned(),
    }
}

/// The word for what the GPU clock is held to.
pub fn gpu_clock_range(state: &ProfileState) -> (r: String)
    ensures
        r@ == (match state.active_gpu_clock {
            None => "auto"@,
            Some(GpuClockSelection::Preset(preset)) => preset.name(),
            Some(GpuClockSelection::Custom(_)) => "custom"@,
        }),
{
    match state.active_gpu_clock {
        None => "auto".to_owned(),
        Some(GpuClockSelection::Preset(preset)) => preset.as_str().to_owned(),
        Some(GpuClockSelection::Custom(_)) => "custom".to_owned(),
    }
}

// ---------------------------------------------------------------------------
// Changes of the properties
// ---------------------------------------------------------------------------

/// A property that clients watch.
#[derive(Debug, Clone, Copy, PartialEq, Eq, Structural)]
pub enum Property {
    CurrentSpl,
    ActiveProfile,
    ChargeEndThreshold,
    AutoCooling,
    FanCurve,
    GpuClockRange,
    GpuFollowsTdp,
    AcConnected,
    AcLocked,
    AcMaxPerformance,
}

/// Whether a property differs between two states.
pub open spec fn differs(property: Property, a: ProfileState, b: ProfileState) -> bool {
    match property {
        Property::CurrentSpl => a.power_target.spl != b.power_target.spl,
        Property::ActiveProfile => !a.active_profile.same(b.active_profile),
        Property::ChargeEndThreshold => a.charge_end_threshold != b.charge_end_threshold,
        Property::AutoCooling => a.fan_follows_tdp != b.fan_follows_tdp,
        Property::FanCurve => a.active_fan_curve != b.active_fan_curve,
        Property::GpuClockRange => a.active_gpu_clock != b.active_gpu_clock,
        Property::GpuFollowsTdp => a.gpu_follows_tdp != b.gpu_follows_tdp,
        Property::AcConnected => a.is_ac_connected != b.is_ac_connected,
        Property::AcLocked => a.ac_locked != b.ac_locked,
        Property::AcMaxPerformance => a.ac_max_performance != b.ac_max_performance,
    }
}

/// Whether a property differs between two states.
pub fn has_changed(property: Property, a: &ProfileState, b: &ProfileState) -> (r: bool)
    ensures
        r == differs(property, *a, *b),
{
    match property {
        Property::CurrentSpl => a.power_target.spl != b.power_target.spl,
        Property::ActiveProfile => a.active_profile != b.active_profile,
        Property::ChargeEndThreshold => a.charge_end_threshold != b.charge_end_threshold,
        Property::AutoCooling => a.fan_follows_tdp != b.fan_follows_tdp,
        Property::FanCurve => a.active_fan_curve != b.active_fan_curve,
        Property::GpuClockRange => a.active_gpu_clock != b.active_gpu_clock,
        Property::GpuFollowsTdp => a.gpu_follows_tdp != b.gpu_follows_tdp,
        Property::AcConnected => a.is_ac_connected != b.is_ac_connected,
        Property::AcLocked => a.ac_locked != b.ac_locked,
        Property::AcMaxPerformance => a.ac_max_performance != b.ac_max_performance,
    }
}

impl Property {
    /// Every property, in the order in which changes are announced.
    pub const ALL: [Property; 10] = [
        Property::CurrentSpl,
        Property::ActiveProfile,
        Property::ChargeEndThreshold,
        Property::AutoCooling,
        Property::FanCurve,
        Property::GpuClockRange,
        Property::GpuFollowsTdp,
        Property::AcConnected,
        Property::AcLocked,
        Property::AcMaxPerformance,
    ];
}

/// Of the first `n` properties those that differ, in order.
pub open spec fn differing(a: ProfileState, b: ProfileState, n: nat) -> Seq<Property>
    decreases n,
{
    if n == 0 {
        Seq::empty()
    } else {
        let before = differing(a, b, (n - 1) as nat);
        let property = Property::ALL@[n - 1];
        if differs(property, a, b) {
            before.push(property)
        } else {
            before
        }
    }
}

/// The properties that differ between two states, in the order in which changes
/// are announced.
pub fn changed_properties(last: &ProfileState, new: &ProfileState) -> (r: Vec<Property>)
    ensures
        r@ == differing(*last, *new, Property::ALL@.len()),
{
    let all = Property::ALL;
    let mut changed: Vec<Property> = Vec::new();
    let mut i: usize = 0;
    while i < all.len()
        invariant
            i <= all.len(),
            all == Property::ALL,
            changed@ == differing(*last, *new, i as nat),
        decreases all.len() - i,
    {
        if has_changed(all[i], last, new) {
            changed.push(all[i]);
        }
        i = i + 1;
    }
    changed
}

/// A change is announced of a property exactly where it differs.
pub proof fn every_change_is_announced(last: ProfileState, new: ProfileState, property: Property)
    ensures
        differing(last, new, Property::ALL@.len()).contains(property) <==> differs(
            property,
            last,
            new,
        ),
{
    let all = Property::ALL@;
    lemma_differing(last, new, all.len(), property);
    assert(all[0] == Property::CurrentSpl);
    assert(all[1] == Property::ActiveProfile);
    assert(all[2] == Property::ChargeEndThreshold);
    assert(all[3] == Property::AutoCooling);
    assert(all[4] == Property::FanCurve);
    assert(all[5] == Property::GpuClockRange);
    assert(all[6] == Property::GpuFollowsTdp);
    assert(all[7] == Property::AcConnected);
    assert(all[8] == Property::AcLocked);
    assert(all[9] == Property::AcMaxPerformance);
}

proof fn lemma_differing(a: ProfileState, b: ProfileState, n: nat, property: Property)
    requires
        n <= Property::ALL@.len(),
    ensures
        differing(a, b, n).contains(property) <==> differs(property, a, b) && exists|k: int|
            0 <= k < n && #[trigger] Property::ALL@[k] == property,
    decreases n,
{
    if n > 0 {
        lemma_differing(a, b, (n - 1) as nat, property);
        let before = differing(a, b, (n - 1) as nat);
        let last = Property::ALL@[n - 1];
        if differs(last, a, b) {
            assert(before.push(last)[before.len() as int] == last);
            assert forall|x: Property| before.contains(x) implies before.push(last).contains(x) by {
                let i = before.index_of(x);
                assert(before.push(last)[i] == x);
            }
        }
    }
}

// ---------------------------------------------------------------------------
// Curves and clocks as the hardware has them
// ---------------------------------------------------------------------------

/// The pairs of temperature and duty of a curve.
pub open spec fn pairs_of(curve: FanCurve) -> Seq<(u32, u32)> {
    curve.points@.map_values(|p: FanCurvePoint| (p.temp_c as u32, p.pwm as u32))
}

fn curve_pairs(curve: &FanCurve) -> (r: Vec<(u32, u32)>)
    ensures
        r@ == pairs_of(*curve),
{
    let mut pairs: Vec<(u32, u32)> = Vec::new();
    let mut i: usize = 0;
    while i < FAN_CURVE_POINTS
        invariant
            i <= FAN_CURVE_POINTS,
            pairs@ == pairs_of(*curve).take(i as int),
        decreases FAN_CURVE_POINTS - i,
    {
        pairs.push((curve.points[i].temp_c as u32, curve.points[i].pwm as u32));
        assert(pairs@ =~= pairs_of(*curve).take(i + 1));
        i = i + 1;
    }
    assert(pairs_of(*curve).take(i as int) =~= pairs_of(*curve));
    pairs
}

/// The pairs of both curves; none where they could not be read.
pub fn drawn(curves: Option<Result<ActiveFanCurves, HpdError>>) -> (r: (
    Vec<(u32, u32)>,
    Vec<(u32, u32)>,
))
    ensures
        match curves {
            Some(Ok(c)) => r.0@ == pairs_of(c.cpu) && r.1@ == pairs_of(c.gpu),
            _ => r.0@.len() == 0 && r.1@.len() == 0,
        },
{
    match curves {
        Some(Ok(c)) => (curve_pairs(&c.cpu), curve_pairs(&c.gpu)),
        _ => (Vec::new(), Vec::new()),
    }
}

/// Whether the curves were read as `r`; nothing on a device without them.
pub open spec fn curves_gave<B: HwBackend + ?Sized>(
    b: &B,
    r: Option<Result<ActiveFanCurves, HpdError>>,
) -> bool {
    exists|cap: Option<&dyn FanCurveControl>| #[trigger]
        call_ensures(B::fan_curve, (b,), cap) && match cap {
            None => r is None,
            Some(f) => r matches Some(curves) && curves_returned(f, curves),
        }
}

/// Whether the fans told these curves.
pub open spec fn curves_returned<F: FanCurveControl + ?Sized>(
    f: &F,
    r: Result<ActiveFanCurves, HpdError>,
) -> bool {
    call_ensures(F::get_curves, (f,), r)
}

fn ask_curves<F: FanCurveControl + ?Sized>(f: &F) -> (r: Result<ActiveFanCurves, HpdError>)
    ensures
        curves_returned(f, r),
{
    f.get_curves()
}

/// The pairs of both curves that the fans run; none where they could not be
/// read.
pub fn get_fan_curve<B: HwBackend + ?Sized>(b: &B) -> (r: (Vec<(u32, u32)>, Vec<(u32, u32)>))
    ensures
        exists|curves: Option<Result<ActiveFanCurves, HpdError>>| #[trigger]
            curves_gave(b, curves) && match curves {
                Some(Ok(c)) => r.0@ == pairs_of(c.cpu) && r.1@ == pairs_of(c.gpu),
                _ => r.0@.len() == 0 && r.1@.len() == 0,
            },
{
    let cap = b.fan_curve();
    assert(call_ensures(B::fan_curve, (b,), cap));
    let curves = match cap {
        None => None,
        Some(f) => Some(ask_curves(f)),
    };
    assert(curves_gave(b, curves));
    drawn(curves)
}

/// The limits of the fan curves, where the device has any.
pub fn get_fan_curve_constraints<B: HwBackend + ?Sized>(b: &B) -> (r: Option<FanCurveConstraints>)
    ensures
        exists|cap: Option<&dyn FanCurveControl>| #[trigger]
            call_ensures(B::fan_curve, (b,), cap) && match cap {
                None => r is None,
                Some(f) => r matches Some(constraints) && limits_returned(f, constraints),
            },
{
    match b.fan_curve() {
        None => None,
        Some(f) => Some(ask_limits(f)),
    }
}

/// The GPU clocks that the device accepts, where it has them and tells them.
pub fn get_gpu_clock_constraints<B: HwBackend + ?Sized>(b: &B) -> (r: Option<GpuClockConstraints>)
    ensures
        exists|cap: Option<&dyn GpuClockRangeControl>| #[trigger]
            call_ensures(B::gpu_clock, (b,), cap) && match cap {
                None => r is None,
                Some(g) => exists|c: Result<GpuClockConstraints, HpdError>| #[trigger]
                    clocks_returned(g, c) && r == (match c {
                        Ok(constraints) => Some(constraints),
                        Err(_) => None,
                    }),
            },
{
    let cap = b.gpu_clock();
    assert(call_ensures(B::gpu_clock, (b,), cap));
    match cap {
        None => None,
        Some(g) => {
            let c = ask_clocks(g);
            assert(clocks_returned(g, c));
            match c {
                Ok(constraints) => Some(constraints),
                Err(_) => None,
            }
        },
    }
}

/// A clock range as a pair; zeros where there is none.
pub open spec fn range_pair(range: Result<Option<GpuClockRange>, HpdError>) -> (u32, u32) {
    match range {
        Ok(Some(range)) => (range.min_mhz, range.max_mhz),
        _ => (0, 0),
    }
}

/// Whether the GPU told this range.
pub open spec fn range_returned<G: GpuClockRangeControl + ?Sized>(
    g: &G,
    r: Result<Option<GpuClockRange>, HpdError>,
) -> bool {
    call_ensures(G::active_range, (g,), r)
}

fn ask_range<G: GpuClockRangeControl + ?Sized>(g: &G) -> (r: Result<
    Option<GpuClockRange>,
    HpdError,
>)
    ensures
        range_returned(g, r),
{
    g.active_range()
}

/// The range that the GPU clock is held to; zeros where it is held to none, or
/// that could not be read.
pub fn get_gpu_clock_range<B: HwBackend + ?Sized>(b: &B) -> (r: (u32, u32))
    ensures
        exists|cap: Option<&dyn GpuClockRangeControl>| #[trigger]
            call_ensures(B::gpu_clock, (b,), cap) && match cap {
                None => r == (0u32, 0u32),
                Some(g) => exists|range: Result<Option<GpuClockRange>, HpdError>| #[trigger]
                    range_returned(g, range) && r == range_pair(range),
            },
{
    let cap = b.gpu_clock();
    assert(call_ensures(B::gpu_clock, (b,), cap));
    match cap {
        None => (0, 0),
        Some(g) => {
            let range = ask_range(g);
            assert(range_returned(g, range));
            match range {
                Ok(Some(range)) => (range.min_mhz, range.max_mhz),
                _ => (0, 0),
            }
        },
    }
}

// ---------------------------------------------------------------------------
// Laws
// ---------------------------------------------------------------------------

/// Every request needs authorization, and none comes to a transition without it.
pub proof fn nothing_happens_unauthorized(
    request: Request,
    intent: Intent,
    authorized: bool,
    transition: Transition,
)
    requires
        concluded(intent, authorized, Ok(transition)),
    ensures
        authorized,
        request.needs().len() > 0,
{
}

/// The requests that are turned down while AC pins the levers are exactly those
/// that come to a transition which the state machine ignores then.
pub proof fn lock_is_one_and_the_same<B: HwBackend + ?Sized>(
    b: &B,
    request: Request,
    intent: Intent,
    transition: Transition,
)
    requires
        checked(b, request, Ok(intent)),
        concluded(intent, true, Ok(transition)),
    ensures
        request.needs_unlocked() <==> transition.moves_a_lever(),
{
}

/// A request for a charge limit, or for the lock itself, is heard while AC pins
/// the levers.
pub proof fn charge_and_lock_requests_are_heard<B: HwBackend + ?Sized>(
    state: ProfileState,
    b: &B,
    request: Request,
    r: Result<Pending, RequestError>,
)
    requires
        request is SetChargeThreshold || request is SetAcMaxPerformance,
        admitted(state, b, request, r),
    ensures
        r is Ok <==> (request matches Request::SetChargeThreshold(threshold)
            ==> charge::chargeable(threshold)),
{
}

/// Whether a transition is what a request asks for.
pub open spec fn is_what_was_asked(request: Request, transition: Transition) -> bool {
    match request {
        Request::SetSpl(watts) => transition == Transition::SetSpl(watts),
        Request::SetPreset(name) => transition matches Transition::SetPreset(preset)
            && text::folded(name@) == (match preset {
            TdpPreset::Eco => "eco"@,
            TdpPreset::Balanced => "balanced"@,
            TdpPreset::Max => "max"@,
        }),
        Request::SetChargeThreshold(limit) => 20 <= limit <= 100 && transition
            == Transition::ChargeThresholdChanged(limit),
        Request::SetAcMaxPerformance(enabled) => transition == Transition::SetAcMaxPerformance(
            enabled,
        ),
        Request::SetProfile(name) => transition matches Transition::SetProfile(profile)
            && profile::goes_by(profile, name@),
        Request::SetCoolingLevel(level) => transition matches Transition::SetCoolingLevel(preset)
            && text::ascii_lower(text::trimmed(level@)) == (match preset {
            FanCurvePreset::Silent => "silent"@,
            FanCurvePreset::Balanced => "balanced"@,
            FanCurvePreset::Aggressive => "aggressive"@,
        }),
        Request::SetFanAuto => transition is EnableFanAuto,
        Request::ResetFanCurve => transition is ResetFanCurve,
        Request::SetFanCurve { cpu, gpu } => transition matches Transition::SetCustomFanCurve {
            cpu: a,
            gpu: b,
        } && draws(a, cpu@) && draws(b, gpu@),
        Request::SetGpuClockRange { min_mhz, max_mhz } => min_mhz < max_mhz && transition == (
        Transition::SetGpuClockRange { min_mhz, max_mhz }),
        Request::EnableGpuAutoFollow => transition is EnableGpuAutoFollow,
        Request::ResetGpuClocks => transition is ResetGpuClocks,
        Request::RestoreDefaults => transition is RestoreDefaults,
    }
}

/// Whether a curve goes through these points of temperature and duty.
pub open spec fn draws(curve: FanCurve, pairs: Seq<(u8, u8)>) -> bool {
    &&& pairs.len() == 8
    &&& forall|k: int|
        0 <= k < 8 ==> (#[trigger] curve.points@[k]).temp_c == pairs[k].0 && curve.points@[k].pwm
            == pairs[k].1
}

/// A request that is admitted and authorized becomes the transition that it asks for.
pub proof fn requests_become_what_they_ask_for<B: HwBackend + ?Sized>(
    state: ProfileState,
    b: &B,
    request: Request,
    pending: Pending,
    transition: Transition,
)
    requires
        call_ensures(
            check::<B>,
            (&state, b, request),
            Ok::<Pending, RequestError>(pending),
        ),
        call_ensures(conclude, (pending.intent, true), Ok::<Transition, RequestError>(transition)),
    ensures
        is_what_was_asked(request, transition),
{
    match request {
        Request::SetFanCurve { cpu, gpu } => {
            if let Transition::SetCustomFanCurve { cpu: a, gpu: c } = transition {
                assert(points_match(a, cpu@) && points_match(c, gpu@));
                assert forall|k: int| 0 <= k < 8 implies (#[trigger] a.points@[k]).temp_c
                    == cpu@[k].0 && a.points@[k].pwm == cpu@[k].1 by {
                    assert(points_of(cpu@)[k] == a.points@[k]);
                }
                assert forall|k: int| 0 <= k < 8 implies (#[trigger] c.points@[k]).temp_c
                    == gpu@[k].0 && c.points@[k].pwm == gpu@[k].1 by {
                    assert(points_of(gpu@)[k] == c.points@[k]);
                }
            }
        },
        _ => {},
    }
}

/// A request for power needs the right to set power, one for the charge limit the right to
/// set that, one for the defaults both and the right to set the profile, and any other
/// request that right alone.
pub proof fn requests_need_their_rights<B: HwBackend + ?Sized>(
    state: ProfileState,
    b: &B,
    request: Request,
    pending: Pending,
)
    requires
        call_ensures(
            check::<B>,
            (&state, b, request),
            Ok::<Pending, RequestError>(pending),
        ),
    ensures
        pending.actions@.contains(PolkitAction::SetTdp) <==> request is SetSpl || request
            is SetPreset || request is RestoreDefaults,
        pending.actions@.contains(PolkitAction::SetCharge) <==> request is SetChargeThreshold
            || request is RestoreDefaults,
        pending.actions@.contains(PolkitAction::SetProfile) <==> !(request is SetSpl || request
            is SetPreset || request is SetChargeThreshold),
{
    let actions = request.needs();
    assert(actions[0] == PolkitAction::SetTdp || actions[0] == PolkitAction::SetCharge
        || actions[0] == PolkitAction::SetProfile);
    if request is RestoreDefaults {
        assert(actions[1] == PolkitAction::SetCharge);
        assert(actions[2] == PolkitAction::SetProfile);
    }
}

/// What needs no answer of the hardware and no name is always admitted on an unlocked
/// device, and so is every name: those are judged once the caller is authorized.
pub proof fn plain_requests_are_admitted<B: HwBackend + ?Sized>(
    state: ProfileState,
    b: &B,
    request: Request,
    r: Result<Pending, RequestError>,
)
    requires
        call_ensures(check::<B>, (&state, b, request), r),
        !state.ac_locked,
    ensures
        request is SetSpl || request is SetPreset || request is SetProfile || request
            is SetAcMaxPerformance || request is SetFanAuto || request is ResetFanCurve || request
            is ResetGpuClocks || request is RestoreDefaults ==> r is Ok,
        request matches Request::SetChargeThreshold(limit) ==> (r is Ok <==> 20 <= limit <= 100),
        request matches Request::SetCoolingLevel(level) ==> (r is Ok <==> ({
            let word = text::ascii_lower(text::trimmed(level@));
            word == "silent"@ || word == "balanced"@ || word == "aggressive"@
        })),
{
}

/// On a locked device every request is refused but those for the charge limit and for the
/// lock itself.
pub proof fn a_locked_device_refuses<B: HwBackend + ?Sized>(
    state: ProfileState,
    b: &B,
    request: Request,
    r: Result<Pending, RequestError>,
)
    requires
        call_ensures(check::<B>, (&state, b, request), r),
        state.ac_locked,
    ensures
        !(request is SetChargeThreshold || request is SetAcMaxPerformance) ==> r is Err,
        request is SetAcMaxPerformance ==> r is Ok,
        request matches Request::SetChargeThreshold(limit) && 20 <= limit <= 100 ==> r is Ok,
{
}

/// Two curves are accepted for a device exactly where both keep its rules.
pub proof fn curves_are_judged_by_the_rules(
    cpu: FanCurve,
    gpu: FanCurve,
    constraints: FanCurveConstraints,
    r: Result<(), RequestError>,
)
    requires
        call_ensures(judge_curves, (&cpu, &gpu, &constraints), r),
    ensures
        r is Ok <==> crate::fan_curve::keeps_the_rules(cpu, constraints)
            && crate::fan_curve::keeps_the_rules(gpu, constraints),
{
    crate::fan_curve::acceptance_is_exactly_the_rules(cpu, constraints);
    crate::fan_curve::acceptance_is_exactly_the_rules(gpu, constraints);
}

/// A clock range is accepted exactly where the clocks of the device are known, it is not
/// empty, and it lies within them.
pub proof fn ranges_are_judged_by_the_clocks(
    range: GpuClockRange,
    clocks: Result<GpuClockConstraints, HpdError>,
    r: Result<(), RequestError>,
)
    requires
        call_ensures(judge_range, (&range, clocks), r),
    ensures
        r is Ok <==> (clocks matches Ok(c) && c.range_min_mhz <= range.min_mhz < range.max_mhz
            <= c.range_max_mhz),
{
}

/// What is reported in watts is the power in whole watts, each rail's own.
pub proof fn watts_are_reported_as_they_are(
    state: ProfileState,
    limits: PowerEnvelopeLimits,
    spl: u32,
    r: (u32, u32, u32, u32),
)
    requires
        call_ensures(current_spl, (&state,), spl),
        call_ensures(get_hardware_limits, (&limits,), r),
    ensures
        spl * 1000 <= state.power_target.spl.0 < spl * 1000 + 1000,
        r.0 * 1000 <= limits.spl_min.0 < r.0 * 1000 + 1000,
        r.1 * 1000 <= limits.spl_max.0 < r.1 * 1000 + 1000,
        r.2 * 1000 <= limits.sppt_max.0 < r.2 * 1000 + 1000,
        r.3 * 1000 <= limits.fppt_max.0 < r.3 * 1000 + 1000,
{
}

/// The words that are reported are the ones that ask for the same again: the profile's
/// name, the level's name, `custom` for what has no name, and `auto` for the firmware.
pub proof fn levers_are_reported_by_their_names(
    state: ProfileState,
    profile: String,
    fans: String,
    clock: String,
)
    requires
        call_ensures(active_profile, (&state,), profile),
        call_ensures(fan_curve, (&state,), fans),
        call_ensures(gpu_clock_range, (&state,), clock),
    ensures
        profile@ == (match state.active_profile {
            ProfileName::PowerSaver => "power-saver"@,
            ProfileName::Balanced => "balanced"@,
            ProfileName::Performance => "performance"@,
            ProfileName::Custom(own) => own@,
        }),
        fans@ == (match state.active_fan_curve {
            None => "auto"@,
            Some(FanCurveSelection::Custom { .. }) => "custom"@,
            Some(FanCurveSelection::Preset(FanCurvePreset::Silent)) => "silent"@,
            Some(FanCurveSelection::Preset(FanCurvePreset::Balanced)) => "balanced"@,
            Some(FanCurveSelection::Preset(FanCurvePreset::Aggressive)) => "aggressive"@,
        }),
        clock@ == (match state.active_gpu_clock {
            None => "auto"@,
            Some(GpuClockSelection::Custom(_)) => "custom"@,
            Some(GpuClockSelection::Preset(FanCurvePreset::Silent)) => "silent"@,
            Some(GpuClockSelection::Preset(FanCurvePreset::Balanced)) => "balanced"@,
            Some(GpuClockSelection::Preset(FanCurvePreset::Aggressive)) => "aggressive"@,
        }),
{
}

/// Whatever changes of the state is announced under its own name, and nothing that did
/// not change.
pub proof fn changes_are_announced_by_name(
    last: ProfileState,
    new: ProfileState,
    r: Vec<Property>,
)
    requires
        call_ensures(changed_properties, (&last, &new), r),
    ensures
        r@.contains(Property::CurrentSpl) <==> last.power_target.spl != new.power_target.spl,
        r@.contains(Property::ActiveProfile) <==> !last.active_profile.same(new.active_profile),
        r@.contains(Property::ChargeEndThreshold) <==> last.charge_end_threshold
            != new.charge_end_threshold,
        r@.contains(Property::AutoCooling) <==> last.fan_follows_tdp != new.fan_follows_tdp,
        r@.contains(Property::FanCurve) <==> last.active_fan_curve != new.active_fan_curve,
        r@.contains(Property::GpuClockRange) <==> last.active_gpu_clock != new.active_gpu_clock,
        r@.contains(Property::GpuFollowsTdp) <==> last.gpu_follows_tdp != new.gpu_follows_tdp,
        r@.contains(Property::AcConnected) <==> last.is_ac_connected != new.is_ac_connected,
        r@.contains(Property::AcLocked) <==> last.ac_locked != new.ac_locked,
        r@.contains(Property::AcMaxPerformance) <==> last.ac_max_performance
            != new.ac_max_performance,
{
    every_change_is_announced(last, new, Property::CurrentSpl);
    every_change_is_announced(last, new, Property::ActiveProfile);
    every_change_is_announced(last, new, Property::ChargeEndThreshold);
    every_change_is_announced(last, new, Property::AutoCooling);
    every_change_is_announced(last, new, Property::FanCurve);
    every_change_is_announced(last, new, Property::GpuClockRange);
    every_change_is_announced(last, new, Property::GpuFollowsTdp);
    every_change_is_announced(last, new, Property::AcConnected);
    every_change_is_announced(last, new, Property::AcLocked);
    every_change_is_announced(last, new, Property::AcMaxPerformance);
}

/// The curves that the hardware runs are drawn point by point, each fan's own.
pub proof fn curves_are_drawn_point_by_point(
    curves: ActiveFanCurves,
    r: (Vec<(u32, u32)>, Vec<(u32, u32)>),
    k: int,
)
    requires
        call_ensures(drawn, (Some(Ok::<ActiveFanCurves, HpdError>(curves)),), r),
        0 <= k < FAN_CURVE_POINTS,
    ensures
        r.0@.len() == FAN_CURVE_POINTS && r.1@.len() == FAN_CURVE_POINTS,
        r.0@[k].0 == curves.cpu.points@[k].temp_c && r.0@[k].1 == curves.cpu.points@[k].pwm,
        r.1@[k].0 == curves.gpu.points@[k].temp_c && r.1@[k].1 == curves.gpu.points@[k].pwm,
{
    assert(r.0@[k] == pairs_of(curves.cpu)[k]);
    assert(r.1@[k] == pairs_of(curves.gpu)[k]);
}

/// The clock range is told with the lower bound first, and as zeros where there is none.
pub proof fn clock_ranges_are_told_from_low_to_high<B: HwBackend + ?Sized>(b: &B, r: (u32, u32))
    requires
        call_ensures(get_gpu_clock_range::<B>, (b,), r),
    ensures
        exists|cap: Option<&dyn GpuClockRangeControl>| #[trigger]
            call_ensures(B::gpu_clock, (b,), cap) && match cap {
                None => r.0 == 0 && r.1 == 0,
                Some(g) => exists|told: Result<Option<GpuClockRange>, HpdError>| #[trigger]
                    range_returned(g, told) && match told {
                        Ok(Some(range)) => r.0 == range.min_mhz && r.1 == range.max_mhz,
                        _ => r.0 == 0 && r.1 == 0,
                    },
            },
{
}

} // verus!
