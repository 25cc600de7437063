//! Fan curves: eight points from temperature to fan duty, their rules, and the
//! named presets.

use crate::error::{violation, HpdError};
use crate::error;
use crate::text::{push_dec, same, to_ascii_lowercase, trim};
use crate::text;
use vstd::prelude::*;

verus! {

/// How many points a curve has.
pub const FAN_CURVE_POINTS: usize = 8;

/// Full fan duty.
pub const PWM_MAX: u8 = 255;

/// One point of a curve: at `temp_c` degrees Celsius the fan runs at duty `pwm`.
#[derive(Debug, Clone, Copy, PartialEq, Eq, Structural)]
pub struct FanCurvePoint {
    pub temp_c: u8,
    pub pwm: u8,
}

impl FanCurvePoint {
    /// The point with these coordinates.
    pub fn new(temp_c: u8, pwm: u8) -> (r: Self)
        ensures
            r == (FanCurvePoint { temp_c, pwm }),
    {
        FanCurvePoint { temp_c, pwm }
    }
}

/// A fan curve.
#[derive(Debug, Clone, Copy)]
pub struct FanCurve {
    pub points: [FanCurvePoint; FAN_CURVE_POINTS],
}

impl PartialEq for FanCurve {
    fn eq(&self, other: &Self) -> (r: bool) {
        let mut i: usize = 0;
        while i < FAN_CURVE_POINTS
            invariant
                i <= FAN_CURVE_POINTS,
                forall|k: int| 0 <= k < i ==> self.points@[k] == other.points@[k],
            decreases FAN_CURVE_POINTS - i,
        {
            if self.points[i] != other.points[i] {
                return false;
            }
            i = i + 1;
        }
        assert(self.points =~= other.points);
        true
    }
}

impl Eq for FanCurve {

}

impl vstd::std_specs::cmp::PartialEqSpecImpl for FanCurve {
    open spec fn obeys_eq_spec() -> bool {
        true
    }

    open spec fn eq_spec(&self, other: &Self) -> bool {
        *self == *other
    }
}

/// The limits of a device on its curves: the range of each coordinate, and a
/// safety floor of pairs `(temperature, duty)`: from that temperature on, the
/// duty may not be lower.
#[derive(Debug, Clone, PartialEq, Eq)]
pub struct FanCurveConstraints {
    pub temp_min_c: u8,
    pub temp_max_c: u8,
    pub pwm_min: u8,
    pub pwm_max: u8,
    pub safety_floor: Vec<(u8, u8)>,
}

// ---------------------------------------------------------------------------
// The rules
// ---------------------------------------------------------------------------

/// What is wrong with `next` following `prev`, where temperatures may repeat.
pub open spec fn step_defect(prev: FanCurvePoint, next: FanCurvePoint) -> Option<Seq<char>> {
    if next.temp_c < prev.temp_c {
        Some(
            "fan curve temperatures must not decrease: "@ + text::dec(next.temp_c as nat) + "°C after "@
                + text::dec(prev.temp_c as nat) + "°C"@,
        )
    } else {
        duty_defect(prev, next)
    }
}

/// What is wrong with `next` following `prev`, where temperatures must rise.
pub open spec fn strict_step_defect(prev: FanCurvePoint, next: FanCurvePoint) -> Option<
    Seq<char>,
> {
    if next.temp_c <= prev.temp_c {
        Some(
            "fan curve temperatures must strictly increase: "@ + text::dec(next.temp_c as nat)
                + "°C after "@ + text::dec(prev.temp_c as nat) + "°C"@,
        )
    } else {
        duty_defect(prev, next)
    }
}

/// What is wrong with the duty of `next` following `prev`.
pub open spec fn duty_defect(prev: FanCurvePoint, next: FanCurvePoint) -> Option<Seq<char>> {
    if next.pwm < prev.pwm {
        Some(
            "fan curve duty must not decrease: pwm "@ + text::dec(next.pwm as nat) + " after "@ + text::dec(
                prev.pwm as nat,
            ),
        )
    } else {
        None
    }
}

/// `words` said of the `number`-th point, counted from 1.
pub open spec fn numbered(number: nat, words: Seq<char>) -> Seq<char> {
    "point "@ + text::dec(number) + ": "@ + words
}

/// The first defect among the steps of `points` from `from` on. Where temperatures
/// must rise, the words name the point at which the step ends.
pub open spec fn first_step_defect(points: Seq<FanCurvePoint>, from: int, strict: bool) -> Option<
    Seq<char>,
>
    decreases points.len() - from,
{
    if from < 0 || from + 1 >= points.len() {
        None
    } else {
        let here = if strict {
            strict_step_defect(points[from], points[from + 1])
        } else {
            step_defect(points[from], points[from + 1])
        };
        match here {
            Some(words) => Some(
                if strict {
                    numbered((from + 2) as nat, words)
                } else {
                    words
                },
            ),
            None => first_step_defect(points, from + 1, strict),
        }
    }
}

/// The duty that `floor` demands at `temp_c`: the highest of those that apply.
pub open spec fn floor_duty(floor: Seq<(u8, u8)>, temp_c: u8) -> Option<u8>
    decreases floor.len(),
{
    if floor.len() == 0 {
        None
    } else {
        let rest = floor_duty(floor.drop_last(), temp_c);
        let (threshold, duty) = floor.last();
        if temp_c < threshold {
            rest
        } else {
            match rest {
                Some(d) => Some(if d < duty {
                    duty
                } else {
                    d
                }),
                None => Some(duty),
            }
        }
    }
}

impl FanCurveConstraints {
    /// What the device has against `p` as its `number`-th point.
    pub open spec fn point_defect(self, number: nat, p: FanCurvePoint) -> Option<Seq<char>> {
        if p.temp_c < self.temp_min_c || p.temp_c > self.temp_max_c {
            Some(
                "point "@ + text::dec(number) + ": "@ + text::dec(p.temp_c as nat)
                    + "°C is outside the device's supported range ("@ + text::dec(self.temp_min_c as nat)
                    + "..="@ + text::dec(self.temp_max_c as nat) + "°C)"@,
            )
        } else if p.pwm < self.pwm_min || p.pwm > self.pwm_max {
            Some(
                "point "@ + text::dec(number) + ": pwm "@ + text::dec(p.pwm as nat)
                    + " is outside the device's supported range ("@ + text::dec(self.pwm_min as nat)
                    + "..="@ + text::dec(self.pwm_max as nat) + ")"@,
            )
        } else {
            match floor_duty(self.safety_floor@, p.temp_c) {
                Some(required) => if p.pwm < required {
                    Some(
                        "point "@ + text::dec(number) + ": "@ + text::dec(p.temp_c as nat)
                            + "°C requires pwm ≥ "@ + text::dec(required as nat)
                            + " (safety floor), got "@ + text::dec(p.pwm as nat),
                    )
                } else {
                    None
                },
                None => None,
            }
        }
    }

    /// The first defect among `points` from `from` on.
    pub open spec fn first_point_defect(self, points: Seq<FanCurvePoint>, from: int) -> Option<
        Seq<char>,
    >
        decreases points.len() - from,
    {
        if from < 0 || from >= points.len() {
            None
        } else {
            match self.point_defect((from + 1) as nat, points[from]) {
                Some(words) => Some(words),
                None => self.first_point_defect(points, from + 1),
            }
        }
    }
}

impl FanCurve {
    /// Neither temperature nor duty falls from one point to the next.
    pub open spec fn monotone(self) -> bool {
        forall|i: int, j: int|
            0 <= i <= j < FAN_CURVE_POINTS ==> (#[trigger] self.points@[i]).temp_c
                <= (#[trigger] self.points@[j]).temp_c && self.points@[i].pwm
                <= self.points@[j].pwm
    }

    /// What is wrong with the curve, whatever the device.
    pub open spec fn defect(self) -> Option<Seq<char>> {
        first_step_defect(self.points@, 0, false)
    }

    /// What is wrong with the curve on a device with these limits.
    pub open spec fn defect_against(self, constraints: FanCurveConstraints) -> Option<Seq<char>> {
        match first_step_defect(self.points@, 0, true) {
            Some(words) => Some(words),
            None => constraints.first_point_defect(self.points@, 0),
        }
    }

    /// The curve through these points.
    pub fn new(points: [FanCurvePoint; FAN_CURVE_POINTS]) -> (r: Self)
        ensures
            r.points == points,
    {
        FanCurve { points }
    }

    /// Refuse a curve whose temperature or duty falls from one point to the next,
    /// naming the first such step.
    pub fn validate(&self) -> (r: Result<(), HpdError>)
        ensures
            error::refuses(r, self.defect()),
            r is Ok <==> self.monotone(),
    {
        let mut i: usize = 0;
        while i + 1 < FAN_CURVE_POINTS
            invariant
                i < FAN_CURVE_POINTS,
                first_step_defect(self.points@, i as int, false) == self.defect(),
                forall|k: int|
                    0 <= k < i ==> (#[trigger] self.points@[k]).temp_c <= self.points@[k + 1].temp_c
                        && self.points@[k].pwm <= self.points@[k + 1].pwm,
            decreases FAN_CURVE_POINTS - i,
        {
            let prev = self.points[i];
            let next = self.points[i + 1];
            if next.temp_c < prev.temp_c {
                let mut s = "fan curve temperatures must not decrease: ".to_owned();
                push_dec(&mut s, next.temp_c as u64);
                s.append("°C after ");
                push_dec(&mut s, prev.temp_c as u64);
                s.append("°C");
                assert(self.points@[i as int].temp_c > self.points@[i + 1].temp_c);
                return Err(violation(s));
            }
            if next.pwm < prev.pwm {
                let mut s = "fan curve duty must not decrease: pwm ".to_owned();
                push_dec(&mut s, next.pwm as u64);
                s.append(" after ");
                push_dec(&mut s, prev.pwm as u64);
                assert(self.points@[i as int].pwm > self.points@[i + 1].pwm);
                return Err(violation(s));
            }
            i = i + 1;
        }
        proof {
            assert forall|a: int, b: int| 0 <= a <= b < FAN_CURVE_POINTS implies (
            #[trigger] self.points@[a]).temp_c <= (#[trigger] self.points@[b]).temp_c
                && self.points@[a].pwm <= self.points@[b].pwm by {
                lemma_steps_compose(self.points@, a, b);
            }
        }
        Ok(())
    }

    /// Refuse a curve that this device may not run, naming the first defect and the
    /// point that has it, counted from 1:
    /// temperatures must rise and duty may not fall from one point to the next,
    /// and each point must lie in the device's range and above its safety floor.
    pub fn validate_against(&self, constraints: &FanCurveConstraints) -> (r: Result<(), HpdError>)
        ensures
            error::refuses(r, self.defect_against(*constraints)),
    {
        let mut i: usize = 0;
        while i + 1 < FAN_CURVE_POINTS
            invariant
                i < FAN_CURVE_POINTS,
                first_step_defect(self.points@, i as int, true) == first_step_defect(
                    self.points@,
                    0,
                    true,
                ),
            decreases FAN_CURVE_POINTS - i,
        {
            let prev = self.points[i];
            let next = self.points[i + 1];
            if next.temp_c <= prev.temp_c {
                let mut s = "fan curve temperatures must strictly increase: ".to_owned();
                push_dec(&mut s, next.temp_c as u64);
                s.append("°C after ");
                push_dec(&mut s, prev.temp_c as u64);
                s.append("°C");
                return Err(violation(say_numbered(i as u64 + 2, s.as_str())));
            }
            if next.pwm < prev.pwm {
                let mut s = "fan curve duty must not decrease: pwm ".to_owned();
                push_dec(&mut s, next.pwm as u64);
                s.append(" after ");
                push_dec(&mut s, prev.pwm as u64);
                return Err(violation(say_numbered(i as u64 + 2, s.as_str())));
            }
            i = i + 1;
        }
        assert(first_step_defect(self.points@, 0, true) is None);
        let mut k: usize = 0;
        while k < FAN_CURVE_POINTS
            invariant
                k <= FAN_CURVE_POINTS,
                first_step_defect(self.points@, 0, true) is None,
                constraints.first_point_defect(self.points@, k as int)
                    == constraints.first_point_defect(self.points@, 0),
            decreases FAN_CURVE_POINTS - k,
        {
            let p = self.points[k];
            let number: u64 = (k as u64) + 1;
            if p.temp_c < constraints.temp_min_c || p.temp_c > constraints.temp_max_c {
                let mut s = "point ".to_owned();
                push_dec(&mut s, number);
                s.append(": ");
                push_dec(&mut s, p.temp_c as u64);
                s.append("°C is outside the device's supported range (");
                push_dec(&mut s, constraints.temp_min_c as u64);
                s.append("..=");
                push_dec(&mut s, constraints.temp_max_c as u64);
                s.append("°C)");
                return Err(violation(s));
            }
            if p.pwm < constraints.pwm_min || p.pwm > constraints.pwm_max {
                let mut s = "point ".to_owned();
                push_dec(&mut s, number);
                s.append(": pwm ");
                push_dec(&mut s, p.pwm as u64);
                s.append(" is outside the device's supported range (");
                push_dec(&mut s, constraints.pwm_min as u64);
                s.append("..=");
                push_dec(&mut s, constraints.pwm_max as u64);
                s.append(")");
                return Err(violation(s));
            }
            if let Some(required) = required_duty(&constraints.safety_floor, p.temp_c) {
                if p.pwm < required {
                    let mut s = "point ".to_owned();
                    push_dec(&mut s, number);
                    s.append(": ");
                    push_dec(&mut s, p.temp_c as u64);
                    s.append("°C requires pwm ≥ ");
                    push_dec(&mut s, required as u64);
                    s.append(" (safety floor), got ");
                    push_dec(&mut s, p.pwm as u64);
                    return Err(violation(s));
                }
            }
            k = k + 1;
        }
        Ok(())
    }
}

/// `words` said of the `number`-th point.
fn say_numbered(number: u64, words: &str) -> (r: String)
    ensures
        r@ == numbered(number as nat, words@),
{
    let mut s = "point ".to_owned();
    push_dec(&mut s, number);
    s.append(": ");
    s.append(words);
    s
}

/// Steps that do not fall make a stretch that does not fall.
proof fn lemma_steps_compose(points: Seq<FanCurvePoint>, a: int, b: int)
    requires
        0 <= a <= b < points.len(),
        forall|k: int|
            0 <= k < points.len() - 1 ==> (#[trigger] points[k]).temp_c <= points[k + 1].temp_c
                && points[k].pwm <= points[k + 1].pwm,
    ensures
        points[a].temp_c <= points[b].temp_c,
        points[a].pwm <= points[b].pwm,
    decreases b - a,
{
    if a < b {
        lemma_steps_compose(points, a, b - 1);
        assert(points[b - 1].temp_c <= points[b - 1 + 1].temp_c);
    }
}

/// The duty that `floor` demands at `temp_c`: the highest of those that apply.
fn required_duty(floor: &Vec<(u8, u8)>, temp_c: u8) -> (r: Option<u8>)
    ensures
        r == floor_duty(floor@, temp_c),
{
    let mut required: Option<u8> = None;
    let mut i: usize = 0;
    while i < floor.len()
        invariant
            i <= floor.len(),
            required == floor_duty(floor@.take(i as int), temp_c),
        decreases floor.len() - i,
    {
        assert(floor@.take(i + 1).drop_last() =~= floor@.take(i as int));
        let (threshold, duty) = floor[i];
        if temp_c >= threshold {
            required = match required {
                Some(d) => Some(if d < duty {
                    duty
                } else {
                    d
                }),
                None => Some(duty),
            };
        }
        i = i + 1;
    }
    assert(floor@.take(i as int) =~= floor@);
    required
}

// ---------------------------------------------------------------------------
// Presets and selections
// ---------------------------------------------------------------------------

/// The named cooling levels, from the quietest to the coolest.
#[derive(Debug, Clone, Copy, PartialEq, Eq, Structural)]
pub enum FanCurvePreset {
    Silent,
    Balanced,
    Aggressive,
}

impl FanCurvePreset {
    /// Every level, from the quietest to the coolest.
    pub const ALL: [FanCurvePreset; 3] = [
        FanCurvePreset::Silent,
        FanCurvePreset::Balanced,
        FanCurvePreset::Aggressive,
    ];

    /// The name of the level.
    pub open spec fn name(self) -> Seq<char> {
        match self {
            FanCurvePreset::Silent => "silent"@,
            FanCurvePreset::Balanced => "balanced"@,
            FanCurvePreset::Aggressive => "aggressive"@,
        }
    }

    /// The name of the level.
    pub fn as_str(self) -> (r: &'static str)
        ensures
            r@ == self.name(),
    {
        match self {
            FanCurvePreset::Silent => "silent",
            FanCurvePreset::Balanced => "balanced",
            FanCurvePreset::Aggressive => "aggressive",
        }
    }

    /// The level that a name stands for, without regard to letter case or to white
    /// space around it.
    pub open spec fn named(s: Seq<char>) -> Option<FanCurvePreset> {
        let name = text::ascii_lower(text::trimmed(s));
        if name == "silent"@ {
            Some(FanCurvePreset::Silent)
        } else if name == "balanced"@ {
            Some(FanCurvePreset::Balanced)
        } else if name == "aggressive"@ {
            Some(FanCurvePreset::Aggressive)
        } else {
            None
        }
    }

    /// The level that a name stands for, without regard to letter case or to white
    /// space around it.
    pub fn from_str(s: &str) -> (r: Result<Self, HpdError>)
        ensures
            match Self::named(s@) {
                Some(preset) => r == Ok::<Self, HpdError>(preset),
                None => r is Err && error::is_violation(
                    r->Err_0,
                    "unknown fan curve preset '"@ + text::ascii_lower(text::trimmed(s@))
                        + "' (expected silent|balanced|aggressive)"@,
                ),
            },
    {
        let name = to_ascii_lowercase(trim(s));
        if same(name.as_str(), "silent") {
            Ok(FanCurvePreset::Silent)
        } else if same(name.as_str(), "balanced") {
            Ok(FanCurvePreset::Balanced)
        } else if same(name.as_str(), "aggressive") {
            Ok(FanCurvePreset::Aggressive)
        } else {
            let mut text = "unknown fan curve preset '".to_owned();
            text.append(name.as_str());
            text.append("' (expected silent|balanced|aggressive)");
            Err(violation(text))
        }
    }
}

impl core::str::FromStr for FanCurvePreset {
    type Err = HpdError;

    fn from_str(s: &str) -> (r: Result<Self, HpdError>)
        ensures
            match Self::named(s@) {
                Some(preset) => r == Ok::<Self, HpdError>(preset),
                None => r is Err && error::is_violation(
                    r->Err_0,
                    "unknown fan curve preset '"@ + text::ascii_lower(text::trimmed(s@))
                        + "' (expected silent|balanced|aggressive)"@,
                ),
            },
    {
        FanCurvePreset::from_str(s)
    }
}

/// What the fans are to run: a named level, or a curve for each fan.
#[derive(Debug, Clone, Copy)]
pub enum FanCurveSelection {
    Preset(FanCurvePreset),
    Custom { cpu: FanCurve, gpu: FanCurve },
}

impl PartialEq for FanCurveSelection {
    fn eq(&self, other: &Self) -> (r: bool) {
        match (self, other) {
            (FanCurveSelection::Preset(a), FanCurveSelection::Preset(b)) => *a == *b,
            (
                FanCurveSelection::Custom { cpu: a, gpu: b },
                FanCurveSelection::Custom { cpu: c, gpu: d },
            ) => *a == *c && *b == *d,
            _ => false,
        }
    }
}

impl Eq for FanCurveSelection {

}

impl vstd::std_specs::cmp::PartialEqSpecImpl for FanCurveSelection {
    open spec fn obeys_eq_spec() -> bool {
        true
    }

    open spec fn eq_spec(&self, other: &Self) -> bool {
        *self == *other
    }
}

/// The curves that the two fans run.
#[derive(Debug, Clone, Copy, PartialEq, Eq)]
pub struct ActiveFanCurves {
    pub cpu: FanCurve,
    pub gpu: FanCurve,
}

/// Control of the fan curves.
pub trait FanCurveControl: Send + Sync {
    /// Program a selection.
    fn apply(&self, selection: &FanCurveSelection) -> Result<(), HpdError>;

    /// Hand the fans back to the firmware.
    fn reset_to_auto(&self) -> Result<(), HpdError>;

    /// The curves that the fans run.
    fn get_curves(&self) -> Result<ActiveFanCurves, HpdError>;

    /// The selection that the fans run; nothing where the firmware is in charge.
    fn active_selection(&self) -> Result<Option<FanCurveSelection>, HpdError>;

    /// The limits of the device.
    fn constraints(&self) -> FanCurveConstraints;
}

// ---------------------------------------------------------------------------
// Laws
// ---------------------------------------------------------------------------

/// Every level is read back from its own name.
pub proof fn preset_name_round_trip(preset: FanCurvePreset)
    ensures
        FanCurvePreset::named(preset.name()) == Some(preset),
{
    reveal_strlit("silent");
    reveal_strlit("balanced");
    reveal_strlit("aggressive");
    let name = preset.name();
    assert(text::trimmed(name) == name);
    assert(text::ascii_lower(name) =~= name);
    assert("silent"@.len() != "balanced"@.len());
    assert("silent"@.len() != "aggressive"@.len());
    assert("balanced"@.len() != "aggressive"@.len());
}

/// A curve whose temperatures rise, whose duty does not fall, and whose points
/// each suit the device is accepted.
pub proof fn rising_curve_in_limits_is_accepted(curve: FanCurve, constraints: FanCurveConstraints)
    requires
        forall|k: int|
            0 <= k < FAN_CURVE_POINTS - 1 ==> (#[trigger] curve.points@[k]).temp_c
                < curve.points@[k + 1].temp_c && curve.points@[k].pwm <= curve.points@[k + 1].pwm,
        forall|k: int|
            0 <= k < FAN_CURVE_POINTS ==> constraints.point_defect(
                (k + 1) as nat,
                #[trigger] curve.points@[k],
            ) is None,
    ensures
        curve.defect_against(constraints) is None,
        curve.defect() is None,
{
    lemma_rising_steps(curve.points@, 0);
    lemma_fine_points(curve.points@, constraints, 0);
    lemma_strict_implies_loose(curve.points@, 0);
}

proof fn lemma_rising_steps(points: Seq<FanCurvePoint>, from: int)
    requires
        0 <= from,
        forall|k: int|
            0 <= k < points.len() - 1 ==> (#[trigger] points[k]).temp_c < points[k + 1].temp_c
                && points[k].pwm <= points[k + 1].pwm,
    ensures
        first_step_defect(points, from, true) is None,
    decreases points.len() - from,
{
    if from + 1 < points.len() {
        assert(points[from].temp_c < points[from + 1].temp_c);
        lemma_rising_steps(points, from + 1);
    }
}

proof fn lemma_fine_points(
    points: Seq<FanCurvePoint>,
    constraints: FanCurveConstraints,
    from: int,
)
    requires
        0 <= from,
        forall|k: int|
            0 <= k < points.len() ==> constraints.point_defect(
                (k + 1) as nat,
                #[trigger] points[k],
            ) is None,
    ensures
        constraints.first_point_defect(points, from) is None,
    decreases points.len() - from,
{
    if from < points.len() {
        assert(constraints.point_defect((from + 1) as nat, points[from]) is None);
        lemma_fine_points(points, constraints, from + 1);
    }
}

/// A device's refusal names the point that is at fault, counted from 1: the later
/// point of the first step that breaks a rule of order, else the first point that
/// the device cannot take.
pub proof fn refusal_names_the_point(curve: FanCurve, constraints: FanCurveConstraints)
    requires
        curve.defect_against(constraints) is Some,
    ensures
        exists|at: int, words: Seq<char>|
            0 <= at < FAN_CURVE_POINTS && curve.defect_against(constraints) == Some(
                #[trigger] numbered((at + 1) as nat, words),
            ) && (breaks_order(curve.points@, at, words) || constraints.point_defect(
                (at + 1) as nat,
                curve.points@[at],
            ) == Some(numbered((at + 1) as nat, words))),
{
    if first_step_defect(curve.points@, 0, true) is Some {
        lemma_step_is_named(curve.points@, 0);
    } else {
        lemma_point_is_named(curve.points@, constraints, 0);
    }
}

/// The point at `at` breaks a rule of order, and `words` say which.
pub open spec fn breaks_order(points: Seq<FanCurvePoint>, at: int, words: Seq<char>) -> bool {
    at > 0 && strict_step_defect(points[at - 1], points[at]) == Some(words)
}

proof fn lemma_step_is_named(points: Seq<FanCurvePoint>, from: int)
    requires
        first_step_defect(points, from, true) is Some,
    ensures
        exists|at: int, words: Seq<char>|
            0 <= at < points.len() && first_step_defect(points, from, true) == Some(
                #[trigger] numbered((at + 1) as nat, words),
            ) && breaks_order(points, at, words),
    decreases points.len() - from,
{
    match strict_step_defect(points[from], points[from + 1]) {
        Some(words) => {
            assert(breaks_order(points, from + 1, words));
            assert(first_step_defect(points, from, true) == Some(
                numbered((from + 1 + 1) as nat, words),
            ));
        },
        None => {
            lemma_step_is_named(points, from + 1);
        },
    }
}

proof fn lemma_point_is_named(
    points: Seq<FanCurvePoint>,
    constraints: FanCurveConstraints,
    from: int,
)
    requires
        constraints.first_point_defect(points, from) is Some,
    ensures
        exists|at: int, words: Seq<char>|
            0 <= at < points.len() && constraints.first_point_defect(points, from) == Some(
                #[trigger] numbered((at + 1) as nat, words),
            ) && constraints.point_defect((at + 1) as nat, points[at]) == Some(
                numbered((at + 1) as nat, words),
            ),
    decreases points.len() - from,
{
    let number = (from + 1) as nat;
    match constraints.point_defect(number, points[from]) {
        Some(said) => {
            let lead = "point "@ + text::dec(number) + ": "@;
            reveal_strlit(": ");
            reveal_strlit(": pwm ");
            let words = said.subrange(lead.len() as int, said.len() as int);
            assert(said =~= numbered(number, words));
        },
        None => {
            lemma_point_is_named(points, constraints, from + 1);
        },
    }
}

/// A curve that a device accepts rises as every curve must.
pub proof fn accepted_curve_is_monotone(curve: FanCurve, constraints: FanCurveConstraints)
    requires
        curve.defect_against(constraints) is None,
    ensures
        curve.defect() is None,
{
    lemma_strict_implies_loose(curve.points@, 0);
}

proof fn lemma_strict_implies_loose(points: Seq<FanCurvePoint>, from: int)
    requires
        first_step_defect(points, from, true) is None,
    ensures
        first_step_defect(points, from, false) is None,
    decreases points.len() - from,
{
    if 0 <= from && from + 1 < points.len() {
        lemma_strict_implies_loose(points, from + 1);
    }
}

/// A device accepts a curve whose temperatures rise from point to point, whose duty
/// does not fall, whose points lie in its range, and which keeps every entry of its
/// safety floor; and it accepts no other.
pub proof fn acceptance_is_exactly_the_rules(curve: FanCurve, constraints: FanCurveConstraints)
    ensures
        curve.defect_against(constraints) is None <==> keeps_the_rules(curve, constraints),
{
    if curve.defect_against(constraints) is None {
        assert forall|k: int| 0 <= k < FAN_CURVE_POINTS - 1 implies (
        #[trigger] curve.points@[k]).temp_c < curve.points@[k + 1].temp_c && curve.points@[k].pwm
            <= curve.points@[k + 1].pwm by {
            lemma_no_step_defect(curve.points@, 0, k);
        }
        assert forall|k: int| 0 <= k < FAN_CURVE_POINTS implies constraints.temp_min_c <= (
        #[trigger] curve.points@[k]).temp_c <= constraints.temp_max_c && constraints.pwm_min
            <= curve.points@[k].pwm <= constraints.pwm_max by {
            lemma_no_point_defect(curve.points@, constraints, 0, k);
        }
        assert forall|k: int, e: int|
            0 <= k < FAN_CURVE_POINTS && 0 <= e < constraints.safety_floor@.len() && (
            #[trigger] curve.points@[k]).temp_c >= (
            #[trigger] constraints.safety_floor@[e]).0 implies curve.points@[k].pwm
            >= constraints.safety_floor@[e].1 by {
            accepted_curve_keeps_safety_floor(curve, constraints, k, e);
        }
    }
    if keeps_the_rules(curve, constraints) {
        assert forall|k: int| 0 <= k < FAN_CURVE_POINTS implies constraints.point_defect(
            (k + 1) as nat,
            #[trigger] curve.points@[k],
        ) is None by {
            lemma_floor_duty_is_reached(constraints.safety_floor@, curve.points@[k].temp_c);
        }
        rising_curve_in_limits_is_accepted(curve, constraints);
    }
}

/// Whether a curve keeps the rules of a device.
pub open spec fn keeps_the_rules(curve: FanCurve, constraints: FanCurveConstraints) -> bool {
    &&& forall|k: int|
        0 <= k < FAN_CURVE_POINTS - 1 ==> (#[trigger] curve.points@[k]).temp_c
            < curve.points@[k + 1].temp_c && curve.points@[k].pwm <= curve.points@[k + 1].pwm
    &&& forall|k: int|
        0 <= k < FAN_CURVE_POINTS ==> constraints.temp_min_c <= (#[trigger] curve.points@[k]).temp_c
            <= constraints.temp_max_c && constraints.pwm_min <= curve.points@[k].pwm
            <= constraints.pwm_max
    &&& forall|k: int, e: int|
        0 <= k < FAN_CURVE_POINTS && 0 <= e < constraints.safety_floor@.len() && (
        #[trigger] curve.points@[k]).temp_c >= (#[trigger] constraints.safety_floor@[e]).0
            ==> curve.points@[k].pwm >= constraints.safety_floor@[e].1
}

proof fn lemma_no_step_defect(points: Seq<FanCurvePoint>, from: int, at: int)
    requires
        0 <= from <= at < points.len() - 1,
        first_step_defect(points, from, true) is None,
    ensures
        points[at].temp_c < points[at + 1].temp_c,
        points[at].pwm <= points[at + 1].pwm,
    decreases at - from,
{
    if from < at {
        lemma_no_step_defect(points, from + 1, at);
    }
}

/// The duty that a floor demands is that of one of its entries that apply.
proof fn lemma_floor_duty_is_reached(floor: Seq<(u8, u8)>, temp_c: u8)
    ensures
        floor_duty(floor, temp_c) matches Some(duty) ==> exists|e: int|
            0 <= e < floor.len() && temp_c >= (#[trigger] floor[e]).0 && floor[e].1 == duty,
    decreases floor.len(),
{
    if floor.len() > 0 {
        let front = floor.drop_last();
        lemma_floor_duty_is_reached(front, temp_c);
        if let Some(duty) = floor_duty(front, temp_c) {
            let e = choose|e: int|
                0 <= e < front.len() && temp_c >= (#[trigger] front[e]).0 && front[e].1 == duty;
            assert(floor[e] == front[e]);
        }
        assert(floor[floor.len() - 1] == floor.last());
    }
}

/// Every point of a curve that a device accepts lies in its range.
pub proof fn accepted_points_lie_in_range(
    curve: FanCurve,
    constraints: FanCurveConstraints,
    point: int,
)
    requires
        curve.defect_against(constraints) is None,
        0 <= point < FAN_CURVE_POINTS,
    ensures
        constraints.temp_min_c <= curve.points@[point].temp_c <= constraints.temp_max_c,
        constraints.pwm_min <= curve.points@[point].pwm <= constraints.pwm_max,
{
    lemma_no_point_defect(curve.points@, constraints, 0, point);
}

/// A curve keeps the rules that hold on any device exactly where neither temperature
/// nor duty falls from one point to a later one.
pub proof fn validity_is_exactly_not_falling(curve: FanCurve, r: Result<(), HpdError>)
    requires
        call_ensures(FanCurve::validate, (&curve,), r),
    ensures
        r is Ok <==> forall|i: int, j: int|
            0 <= i <= j < FAN_CURVE_POINTS ==> (#[trigger] curve.points@[i]).temp_c <= (
            #[trigger] curve.points@[j]).temp_c && curve.points@[i].pwm <= curve.points@[j].pwm,
{
}

/// A curve that a device is asked to run is refused exactly where it breaks a rule.
pub proof fn a_device_takes_exactly_what_keeps_the_rules(
    curve: FanCurve,
    constraints: FanCurveConstraints,
    r: Result<(), HpdError>,
)
    requires
        call_ensures(FanCurve::validate_against, (&curve, &constraints), r),
    ensures
        r is Ok <==> keeps_the_rules(curve, constraints),
{
    acceptance_is_exactly_the_rules(curve, constraints);
}

/// A curve that a device accepts keeps the safety floor at every point.
pub proof fn accepted_curve_keeps_safety_floor(
    curve: FanCurve,
    constraints: FanCurveConstraints,
    point: int,
    entry: int,
)
    requires
        curve.defect_against(constraints) is None,
        0 <= point < FAN_CURVE_POINTS,
        0 <= entry < constraints.safety_floor@.len(),
        curve.points@[point].temp_c >= constraints.safety_floor@[entry].0,
    ensures
        curve.points@[point].pwm >= constraints.safety_floor@[entry].1,
{
    lemma_no_point_defect(curve.points@, constraints, 0, point);
    lemma_floor_duty_covers(
        constraints.safety_floor@,
        curve.points@[point].temp_c,
        entry,
    );
}

proof fn lemma_no_point_defect(
    points: Seq<FanCurvePoint>,
    constraints: FanCurveConstraints,
    from: int,
    at: int,
)
    requires
        0 <= from <= at < points.len(),
        constraints.first_point_defect(points, from) is None,
    ensures
        constraints.point_defect((at + 1) as nat, points[at]) is None,
    decreases at - from,
{
    if from < at {
        lemma_no_point_defect(points, constraints, from + 1, at);
    }
}

proof fn lemma_floor_duty_covers(floor: Seq<(u8, u8)>, temp_c: u8, entry: int)
    requires
        0 <= entry < floor.len(),
        temp_c >= floor[entry].0,
    ensures
        floor_duty(floor, temp_c) is Some,
        floor_duty(floor, temp_c)->0 >= floor[entry].1,
    decreases floor.len(),
{
    if entry < floor.len() - 1 {
        lemma_floor_duty_covers(floor.drop_last(), temp_c, entry);
    }
}

} // verus!
