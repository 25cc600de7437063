//! Fan curves on ASUS handhelds: eight points per fan, held by the embedded
//! controller behind the `asus_custom_fan_curve` node.

use crate::asus::fan::{FAN_CPU, FAN_GPU};
use crate::asus::hwmon;
use crate::error;
use crate::error::{BackendError, HpdError, SysfsError};
use crate::fan_curve;
use crate::fan_curve::{
    ActiveFanCurves, FanCurve, FanCurveConstraints, FanCurveControl, FanCurvePoint, FanCurvePreset,
    FanCurveSelection, FAN_CURVE_POINTS,
};
use crate::journal;
use crate::journal::{Entry, Journal};
use crate::sysfs;
use crate::sysfs::SysfsIo;
use crate::text;
use vstd::prelude::*;

verus! {

pub const CURVE_HWMON_NAME: &'static str = "asus_custom_fan_curve";

/// The controller runs the points.
pub const ENABLE_CUSTOM: &'static str = "1";

/// The controller runs the firmware's own curve.
pub const ENABLE_AUTO: &'static str = "2";

// ---------------------------------------------------------------------------
// Presets and limits
// ---------------------------------------------------------------------------

pub open spec fn point(temp_c: u8, pwm: u8) -> FanCurvePoint {
    FanCurvePoint { temp_c, pwm }
}

/// The points of a preset.
pub open spec fn preset_points(preset: FanCurvePreset) -> Seq<FanCurvePoint> {
    match preset {
        FanCurvePreset::Silent => seq![
            point(48, 8),
            point(56, 20),
            point(63, 38),
            point(70, 64),
            point(77, 102),
            point(83, 140),
            point(88, 190),
            point(93, 230),
        ],
        FanCurvePreset::Balanced => seq![
            point(45, 15),
            point(54, 33),
            point(62, 64),
            point(69, 102),
            point(76, 140),
            point(82, 178),
            point(87, 216),
            point(92, 255),
        ],
        FanCurvePreset::Aggressive => seq![
            point(40, 26),
            point(50, 64),
            point(58, 102),
            point(65, 140),
            point(72, 178),
            point(79, 210),
            point(85, 240),
            point(91, 255),
        ],
    }
}

/// The curves of a preset: both fans run the same one.
pub fn preset_curves(preset: FanCurvePreset) -> (r: (FanCurve, FanCurve))
    ensures
        r.0.points@ == preset_points(preset),
        r.1 == r.0,
{
    let curve = match preset {
        FanCurvePreset::Silent => FanCurve::new(
            [
                FanCurvePoint::new(48, 8),
                FanCurvePoint::new(56, 20),
                FanCurvePoint::new(63, 38),
                FanCurvePoint::new(70, 64),
                FanCurvePoint::new(77, 102),
                FanCurvePoint::new(83, 140),
                FanCurvePoint::new(88, 190),
                FanCurvePoint::new(93, 230),
            ],
        ),
        FanCurvePreset::Balanced => FanCurve::new(
            [
                FanCurvePoint::new(45, 15),
                FanCurvePoint::new(54, 33),
                FanCurvePoint::new(62, 64),
                FanCurvePoint::new(69, 102),
                FanCurvePoint::new(76, 140),
                FanCurvePoint::new(82, 178),
                FanCurvePoint::new(87, 216),
                FanCurvePoint::new(92, 255),
            ],
        ),
        FanCurvePreset::Aggressive => FanCurve::new(
            [
                FanCurvePoint::new(40, 26),
                FanCurvePoint::new(50, 64),
                FanCurvePoint::new(58, 102),
                FanCurvePoint::new(65, 140),
                FanCurvePoint::new(72, 178),
                FanCurvePoint::new(79, 210),
                FanCurvePoint::new(85, 240),
                FanCurvePoint::new(91, 255),
            ],
        ),
    };
    assert(curve.points@ =~= preset_points(preset));
    (curve, curve)
}

/// Whether these are the limits of the device: 30 to 95 degrees, any duty, and
/// a safety floor from 85 and from 90 degrees on.
pub open spec fn device_limits(c: FanCurveConstraints) -> bool {
    &&& c.temp_min_c == 30 && c.temp_max_c == 95
    &&& c.pwm_min == 0 && c.pwm_max == 255
    &&& c.safety_floor@ == seq![(85u8, 150u8), (90u8, 200u8)]
}

/// Every preset is a curve that the device accepts.
pub proof fn presets_are_accepted(
    preset: FanCurvePreset,
    curve: FanCurve,
    limits: FanCurveConstraints,
)
    requires
        curve.points@ == preset_points(preset),
        device_limits(limits),
    ensures
        curve.defect_against(limits) is None,
        curve.defect() is None,
{
    let points = preset_points(preset);
    assert forall|k: int| 0 <= k < FAN_CURVE_POINTS - 1 implies (
    #[trigger] curve.points@[k]).temp_c < curve.points@[k + 1].temp_c && curve.points@[k].pwm
        <= curve.points@[k + 1].pwm by {
        assert(curve.points@[k] == points[k] && curve.points@[k + 1] == points[k + 1]);
        lemma_preset_rises(preset, k);
    }
    assert forall|k: int| 0 <= k < FAN_CURVE_POINTS implies limits.point_defect(
        (k + 1) as nat,
        #[trigger] curve.points@[k],
    ) is None by {
        lemma_preset_point(preset, k);
        lemma_device_floor(limits.safety_floor@, points[k].temp_c);
    }
    fan_curve::rising_curve_in_limits_is_accepted(curve, limits);
}

proof fn lemma_device_floor(floor: Seq<(u8, u8)>, temp_c: u8)
    requires
        floor == seq![(85u8, 150u8), (90u8, 200u8)],
    ensures
        fan_curve::floor_duty(floor, temp_c) == (if temp_c >= 90 {
            Some(200u8)
        } else if temp_c >= 85 {
            Some(150u8)
        } else {
            None
        }),
{
    assert(floor.drop_last() =~= seq![(85u8, 150u8)]);
    assert(floor.drop_last().drop_last() =~= Seq::<(u8, u8)>::empty());
    reveal_with_fuel(fan_curve::floor_duty, 3);
}

proof fn lemma_preset_rises(preset: FanCurvePreset, k: int)
    requires
        0 <= k < 7,
    ensures
        preset_points(preset)[k].temp_c < preset_points(preset)[k + 1].temp_c,
        preset_points(preset)[k].pwm <= preset_points(preset)[k + 1].pwm,
{
}

proof fn lemma_preset_point(preset: FanCurvePreset, k: int)
    requires
        0 <= k < 8,
    ensures
        30 <= preset_points(preset)[k].temp_c <= 95,
        preset_points(preset)[k].temp_c >= 85 ==> preset_points(preset)[k].pwm >= 150,
        preset_points(preset)[k].temp_c >= 90 ==> preset_points(preset)[k].pwm >= 200,
{
}

/// Whether curve `b` cools harder than curve `a` throughout: it reaches each point at
/// a lower temperature, with at least the same duty, and with more at first.
pub open spec fn cools_harder(a: FanCurve, b: FanCurve) -> bool {
    &&& forall|k: int|
        0 <= k < FAN_CURVE_POINTS ==> (#[trigger] b.points@[k]).temp_c < a.points@[k].temp_c
            && b.points@[k].pwm >= a.points@[k].pwm
    &&& b.points@[0].pwm > a.points@[0].pwm
}

/// The duty of the last point that a temperature has reached; none below the first.
pub open spec fn duty_at(points: Seq<FanCurvePoint>, temp_c: int) -> int
    decreases points.len(),
{
    if points.len() == 0 {
        0
    } else if points.last().temp_c <= temp_c {
        points.last().pwm as int
    } else {
        duty_at(points.drop_last(), temp_c)
    }
}

/// The named levels are in order: on either fan balanced cools harder than silent, and
/// aggressive harder than balanced.
pub proof fn levels_are_ordered_by_cooling(
    silent: (FanCurve, FanCurve),
    balanced: (FanCurve, FanCurve),
    aggressive: (FanCurve, FanCurve),
)
    requires
        call_ensures(preset_curves, (FanCurvePreset::Silent,), silent),
        call_ensures(preset_curves, (FanCurvePreset::Balanced,), balanced),
        call_ensures(preset_curves, (FanCurvePreset::Aggressive,), aggressive),
    ensures
        cools_harder(silent.0, balanced.0),
        cools_harder(balanced.0, aggressive.0),
        cools_harder(silent.1, balanced.1),
        cools_harder(balanced.1, aggressive.1),
{
}

/// Of the named levels, a stronger one never runs a fan slower at any temperature.
pub proof fn stronger_levels_never_run_slower(
    silent: (FanCurve, FanCurve),
    balanced: (FanCurve, FanCurve),
    aggressive: (FanCurve, FanCurve),
    temp_c: int,
)
    requires
        call_ensures(preset_curves, (FanCurvePreset::Silent,), silent),
        call_ensures(preset_curves, (FanCurvePreset::Balanced,), balanced),
        call_ensures(preset_curves, (FanCurvePreset::Aggressive,), aggressive),
    ensures
        duty_at(silent.0.points@, temp_c) <= duty_at(balanced.0.points@, temp_c) <= duty_at(
            aggressive.0.points@,
            temp_c,
        ),
        duty_at(silent.1.points@, temp_c) <= duty_at(balanced.1.points@, temp_c) <= duty_at(
            aggressive.1.points@,
            temp_c,
        ),
{
    levels_are_ordered_by_cooling(silent, balanced, aggressive);
    lemma_duty_ordered(silent.0.points@, balanced.0.points@, temp_c);
    lemma_duty_ordered(balanced.0.points@, aggressive.0.points@, temp_c);
}

proof fn lemma_duty_ordered(a: Seq<FanCurvePoint>, b: Seq<FanCurvePoint>, temp_c: int)
    requires
        a.len() == b.len(),
        forall|k: int|
            0 <= k < a.len() ==> (#[trigger] b[k]).temp_c <= a[k].temp_c && b[k].pwm >= a[k].pwm,
        forall|j: int, k: int| 0 <= j <= k < a.len() ==> (#[trigger] a[j]).pwm <= (#[trigger] a[k]).pwm,
    ensures
        duty_at(a, temp_c) <= duty_at(b, temp_c),
    decreases a.len(),
{
    if a.len() > 0 {
        assert(b[b.len() - 1].temp_c <= a[a.len() - 1].temp_c);
        let (x, y) = (a.drop_last(), b.drop_last());
        assert forall|k: int| 0 <= k < x.len() implies (#[trigger] y[k]).temp_c <= x[k].temp_c
            && y[k].pwm >= x[k].pwm by {
            assert(b[k].temp_c <= a[k].temp_c);
        }
        assert forall|j: int, k: int| 0 <= j <= k < x.len() implies (#[trigger] x[j]).pwm <= (
        #[trigger] x[k]).pwm by {
            assert(a[j].pwm <= a[k].pwm);
        }
        lemma_duty_ordered(x, y, temp_c);
        lemma_duty_at_most(a, temp_c);
    }
}

/// A curve that does not fall runs no faster than its last point.
proof fn lemma_duty_at_most(a: Seq<FanCurvePoint>, temp_c: int)
    requires
        a.len() > 0,
        forall|j: int, k: int| 0 <= j <= k < a.len() ==> (#[trigger] a[j]).pwm <= (#[trigger] a[k]).pwm,
    ensures
        duty_at(a, temp_c) <= a.last().pwm,
    decreases a.len(),
{
    reveal_with_fuel(duty_at, 2);
    let x = a.drop_last();
    if x.len() > 0 && a.last().temp_c > temp_c {
        assert forall|j: int, k: int| 0 <= j <= k < x.len() implies (#[trigger] x[j]).pwm <= (
        #[trigger] x[k]).pwm by {
            assert(a[j].pwm <= a[k].pwm);
        }
        lemma_duty_at_most(x, temp_c);
        assert(a[a.len() - 2].pwm <= a[a.len() - 1].pwm);
    }
}

/// The device takes no point outside 30 to 95 degrees, and from 85 and from 90 degrees
/// on none that runs a fan slower than 150 and 200: any curve that it accepts keeps
/// that.
pub proof fn accepted_curves_are_safe(curve: FanCurve, limits: FanCurveConstraints, k: int)
    requires
        device_limits(limits),
        curve.defect_against(limits) is None,
        0 <= k < FAN_CURVE_POINTS,
    ensures
        30 <= curve.points@[k].temp_c <= 95,
        curve.points@[k].temp_c >= 85 ==> curve.points@[k].pwm >= 150,
        curve.points@[k].temp_c >= 90 ==> curve.points@[k].pwm >= 200,
{
    fan_curve::accepted_points_lie_in_range(curve, limits, k);
    lemma_device_floor(limits.safety_floor@, curve.points@[k].temp_c);
    if curve.points@[k].temp_c >= 85 {
        fan_curve::accepted_curve_keeps_safety_floor(curve, limits, k, 0);
    }
    if curve.points@[k].temp_c >= 90 {
        fan_curve::accepted_curve_keeps_safety_floor(curve, limits, k, 1);
    }
}

/// What a selection stands for is what was selected: the curves of a named level, or
/// one's own, each on its fan.
pub proof fn selections_stand_for_their_curves(
    preset: FanCurvePreset,
    cpu: FanCurve,
    gpu: FanCurve,
    known: (FanCurve, FanCurve),
    a: Result<(FanCurve, FanCurve), HpdError>,
    b: Result<(FanCurve, FanCurve), HpdError>,
)
    requires
        call_ensures(preset_curves, (preset,), known),
        call_ensures(resolve, (&FanCurveSelection::Preset(preset),), a),
        call_ensures(resolve, (&FanCurveSelection::Custom { cpu, gpu },), b),
    ensures
        a matches Ok(curves) && curves.0 == known.0 && curves.1 == known.1,
        b matches Ok(curves) ==> curves == (cpu, gpu),
{
    if let Ok(curves) = a {
        assert(curves.0.points =~= known.0.points);
        assert(curves.1.points =~= known.1.points);
    }
}

/// The curves of a named level are known by that name again, and no others.
pub proof fn levels_are_recognized(
    preset: FanCurvePreset,
    known: (FanCurve, FanCurve),
    curves: ActiveFanCurves,
    r: FanCurveSelection,
)
    requires
        call_ensures(preset_curves, (preset,), known),
        call_ensures(identify, (&curves,), r),
    ensures
        curves.cpu == known.0 && curves.gpu == known.1 ==> r == FanCurveSelection::Preset(preset),
        r == FanCurveSelection::Preset(preset) ==> curves.cpu == known.0 && curves.gpu == known.1,
        r is Custom ==> r == (FanCurveSelection::Custom { cpu: curves.cpu, gpu: curves.gpu }),
{
    lemma_levels_told_apart();
    assert(curves.cpu.points@ == known.0.points@ ==> curves.cpu.points =~= known.0.points);
    assert(curves.gpu.points@ == known.1.points@ ==> curves.gpu.points =~= known.1.points);
}

proof fn lemma_levels_told_apart()
    ensures
        forall|a: FanCurvePreset, b: FanCurvePreset|
            #[trigger] preset_points(a) == #[trigger] preset_points(b) ==> a == b,
{
    assert forall|a: FanCurvePreset, b: FanCurvePreset|
        #[trigger] preset_points(a) == #[trigger] preset_points(b) implies a == b by {
        assert(preset_points(a)[0] == preset_points(b)[0]);
    }
}

// ---------------------------------------------------------------------------
// Files
// ---------------------------------------------------------------------------

/// The file of one coordinate of one point.
pub open spec fn point_path(base: Seq<char>, fan: u8, number: nat, kind: Seq<char>) -> Seq<char> {
    base + "/pwm"@ + text::dec(fan as nat) + "_auto_point"@ + text::dec(number) + "_"@ + kind
}

/// The file that says which curve a fan runs.
pub open spec fn enable_path(base: Seq<char>, fan: u8) -> Seq<char> {
    base + "/pwm"@ + text::dec(fan as nat) + "_enable"@
}

fn make_point_path(base: &str, fan: u8, number: usize, kind: &str) -> (r: String)
    ensures
        r@ == point_path(base@, fan, number as nat, kind@),
{
    let mut s = base.to_owned();
    s.append("/pwm");
    text::push_dec(&mut s, fan as u64);
    s.append("_auto_point");
    text::push_dec(&mut s, number as u64);
    s.append("_");
    s.append(kind);
    s
}

fn make_enable_path(base: &str, fan: u8) -> (r: String)
    ensures
        r@ == enable_path(base@, fan),
{
    let mut s = base.to_owned();
    s.append("/pwm");
    text::push_dec(&mut s, fan as u64);
    s.append("_enable");
    s
}

fn decimal(n: u8) -> (r: String)
    ensures
        r@ == text::dec(n as nat),
{
    let mut s = String::new();
    text::push_dec(&mut s, n as u64);
    assert(s@ =~= text::dec(n as nat));
    s
}

/// The writes of the first `n` points of a fan, in order: temperature and duty of
/// each in turn.
pub open spec fn point_commands(
    base: Seq<char>,
    fan: u8,
    points: Seq<FanCurvePoint>,
    n: nat,
) -> Seq<(Seq<char>, Seq<char>)>
    decreases n,
{
    if n == 0 {
        Seq::empty()
    } else {
        let p = points[n - 1];
        point_commands(base, fan, points, (n - 1) as nat).push(
            (point_path(base, fan, n, "temp"@), text::dec(p.temp_c as nat)),
        ).push((point_path(base, fan, n, "pwm"@), text::dec(p.pwm as nat)))
    }
}

/// The writes that switch both fans to a mode, in order.
pub open spec fn enable_commands(base: Seq<char>, mode: Seq<char>) -> Seq<(Seq<char>, Seq<char>)> {
    seq![(enable_path(base, FAN_CPU), mode), (enable_path(base, FAN_GPU), mode)]
}

/// The writes that program both curves, in order: every point of either fan, and
/// only then the switch to them.
pub open spec fn curve_commands(base: Seq<char>, cpu: FanCurve, gpu: FanCurve) -> Seq<
    (Seq<char>, Seq<char>),
> {
    point_commands(base, FAN_CPU, cpu.points@, FAN_CURVE_POINTS as nat) + point_commands(
        base,
        FAN_GPU,
        gpu.points@,
        FAN_CURVE_POINTS as nat,
    ) + enable_commands(base, ENABLE_CUSTOM@)
}

fn push_point_writes(writes: &mut Vec<(String, String)>, base: &str, fan: u8, curve: &FanCurve)
    ensures
        journal::pairs(final(writes)@) == journal::pairs(old(writes)@) + point_commands(
            base@,
            fan,
            curve.points@,
            FAN_CURVE_POINTS as nat,
        ),
{
    let ghost before = journal::pairs(writes@);
    let mut i: usize = 0;
    assert(before =~= before + point_commands(base@, fan, curve.points@, 0));
    while i < FAN_CURVE_POINTS
        invariant
            i <= FAN_CURVE_POINTS,
            journal::pairs(writes@) == before + point_commands(base@, fan, curve.points@, i as nat),
        decreases FAN_CURVE_POINTS - i,
    {
        let ghost so_far = writes@;
        let p = curve.points[i];
        let temp = (make_point_path(base, fan, i + 1, "temp"), decimal(p.temp_c));
        let pwm = (make_point_path(base, fan, i + 1, "pwm"), decimal(p.pwm));
        proof {
            let more = journal::pairs(so_far).push((temp.0@, temp.1@)).push((pwm.0@, pwm.1@));
            assert(journal::pairs(so_far.push(temp).push(pwm)) =~= more);
            assert(more =~= before + point_commands(base@, fan, curve.points@, (i + 1) as nat));
        }
        writes.push(temp);
        writes.push(pwm);
        i = i + 1;
    }
}

/// The writes that switch both fans to a mode, in order.
pub fn enable_writes(base: &str, mode: &str) -> (r: Vec<(String, String)>)
    ensures
        journal::pairs(r@) == enable_commands(base@, mode@),
{
    let mut writes: Vec<(String, String)> = Vec::new();
    writes.push((make_enable_path(base, FAN_CPU), mode.to_owned()));
    writes.push((make_enable_path(base, FAN_GPU), mode.to_owned()));
    assert(journal::pairs(writes@) =~= enable_commands(base@, mode@));
    writes
}

/// The writes that program both curves, in order.
pub fn curve_writes(base: &str, cpu: &FanCurve, gpu: &FanCurve) -> (r: Vec<(String, String)>)
    ensures
        journal::pairs(r@) == curve_commands(base@, *cpu, *gpu),
{
    let mut writes: Vec<(String, String)> = Vec::new();
    push_point_writes(&mut writes, base, FAN_CPU, cpu);
    push_point_writes(&mut writes, base, FAN_GPU, gpu);
    let mut switch = enable_writes(base, ENABLE_CUSTOM);
    let ghost (points, modes) = (writes@, switch@);
    writes.append(&mut switch);
    assert(journal::pairs(points + modes) =~= journal::pairs(points) + journal::pairs(modes));
    assert(journal::pairs(writes@) =~= curve_commands(base@, *cpu, *gpu));
    writes
}

/// Whether `r` is the coordinate that the contents of its file stand for.
pub open spec fn coordinate_from(raw: Result<String, SysfsError>, r: Result<u8, HpdError>) -> bool {
    match raw {
        Err(e) => r == Err::<u8, HpdError>(HpdError::Sysfs(e)),
        Ok(t) => match text::bounded_value(text::trimmed(t@), u8::MAX as nat) {
            Some(v) => r is Ok && r->Ok_0 == v,
            None => r is Err && sysfs::is_parse_failure(
                r->Err_0,
                "fan_curve_point"@,
                t@,
                "expected u8 (0-255)"@,
            ),
        },
    }
}

/// The coordinate that the contents of its file stand for.
pub fn parse_coordinate(raw: Result<String, SysfsError>) -> (r: Result<u8, HpdError>)
    ensures
        coordinate_from(raw, r),
{
    match raw {
        Err(e) => Err(HpdError::Sysfs(e)),
        Ok(t) => match sysfs::parse_number(
            t.as_str(),
            u8::MAX as u64,
            "fan_curve_point",
            "expected u8 (0-255)",
        ) {
            Ok(v) => Ok(v as u8),
            Err(e) => Err(e),
        },
    }
}

/// Whether a coordinate was read as `r`.
pub open spec fn coordinate_gave<S: SysfsIo>(
    s: &S,
    path: Seq<char>,
    r: Result<u8, HpdError>,
) -> bool {
    exists|raw: Result<String, SysfsError>| #[trigger]
        sysfs::read_gave(s, path, raw) && coordinate_from(raw, r)
}

/// Whether the points of a fan were read as `r`, given those that come first.
pub open spec fn points_gave<S: SysfsIo>(
    s: &S,
    base: Seq<char>,
    fan: u8,
    first: Seq<FanCurvePoint>,
    r: Result<FanCurve, HpdError>,
) -> bool
    decreases FAN_CURVE_POINTS - first.len(),
{
    if first.len() >= FAN_CURVE_POINTS {
        r is Ok && r->Ok_0.points@ == first
    } else {
        let number = first.len() + 1;
        exists|a: Result<u8, HpdError>| #[trigger]
            coordinate_gave(s, point_path(base, fan, number, "temp"@), a) && match a {
                Err(e) => r == Err::<FanCurve, HpdError>(e),
                Ok(temp) => exists|b: Result<u8, HpdError>| #[trigger]
                    coordinate_gave(s, point_path(base, fan, number, "pwm"@), b) && match b {
                        Err(e) => r == Err::<FanCurve, HpdError>(e),
                        Ok(pwm) => points_gave(s, base, fan, first.push(point(temp, pwm)), r),
                    },
            }
    }
}

fn read_coordinate<S: SysfsIo>(files: &mut Journal<S>, path: &str) -> (r: Result<u8, HpdError>)
    ensures
        final(files).files() == old(files).files(),
        hwmon::looked(old(files).log(), final(files).log()),
        coordinate_gave(old(files).files(), path@, r),
{
    let raw = files.read(path);
    parse_coordinate(raw)
}

fn read_points<S: SysfsIo>(
    files: &mut Journal<S>,
    base: &str,
    fan: u8,
    done: [FanCurvePoint; FAN_CURVE_POINTS],
    from: usize,
) -> (r: Result<FanCurve, HpdError>)
    requires
        from <= FAN_CURVE_POINTS,
    ensures
        final(files).files() == old(files).files(),
        hwmon::looked(old(files).log(), final(files).log()),
        points_gave(old(files).files(), base@, fan, done@.take(from as int), r),
    decreases FAN_CURVE_POINTS - from,
{
    if from == FAN_CURVE_POINTS {
        assert(done@.take(from as int) =~= done@);
        return Ok(FanCurve::new(done));
    }
    let ghost s = files.files();
    let ghost first = done@.take(from as int);
    let temp_path = make_point_path(base, fan, from + 1, "temp");
    let a = read_coordinate(files, temp_path.as_str());
    let ghost ga = a;
    assert(coordinate_gave(s, point_path(base@, fan, first.len() + 1, "temp"@), ga));
    let temp = match a {
        Ok(v) => v,
        Err(e) => {
            return Err(e);
        },
    };
    let pwm_path = make_point_path(base, fan, from + 1, "pwm");
    let b = read_coordinate(files, pwm_path.as_str());
    let ghost gb = b;
    assert(coordinate_gave(s, point_path(base@, fan, first.len() + 1, "pwm"@), gb));
    let pwm = match b {
        Ok(v) => v,
        Err(e) => {
            return Err(e);
        },
    };
    let mut more = done;
    more[from] = FanCurvePoint::new(temp, pwm);
    assert(more@.take(from + 1) =~= first.push(point(temp, pwm)));
    read_points(files, base, fan, more, from + 1)
}

/// Whether the points of a fan were read as `r`.
pub open spec fn curve_gave<S: SysfsIo>(
    s: &S,
    base: Seq<char>,
    fan: u8,
    r: Result<FanCurve, HpdError>,
) -> bool {
    points_gave(s, base, fan, Seq::empty(), r)
}

fn read_curve<S: SysfsIo>(files: &mut Journal<S>, base: &str, fan: u8) -> (r: Result<
    FanCurve,
    HpdError,
>)
    ensures
        final(files).files() == old(files).files(),
        hwmon::looked(old(files).log(), final(files).log()),
        curve_gave(old(files).files(), base@, fan, r),
{
    let zero = FanCurvePoint::new(0, 0);
    let blank = [zero, zero, zero, zero, zero, zero, zero, zero];
    assert(blank@.take(0) =~= Seq::empty());
    read_points(files, base, fan, blank, 0)
}

/// Whether the directory of the curves was found to be `r`.
pub open spec fn base_gave<S: SysfsIo>(s: &S, r: Option<String>) -> bool {
    hwmon::first_hwmon_gave(s, CURVE_HWMON_NAME@, r)
}

/// Whether the curves that the fans run were read as `r`.
pub open spec fn curves_gave<S: SysfsIo>(s: &S, r: Result<ActiveFanCurves, HpdError>) -> bool {
    exists|node: Option<String>| #[trigger]
        base_gave(s, node) && match node {
            None => r == Err::<ActiveFanCurves, HpdError>(HpdError::FeatureUnsupported),
            Some(base) => exists|a: Result<FanCurve, HpdError>| #[trigger]
                curve_gave(s, base@, FAN_CPU, a) && match a {
                    Err(e) => r == Err::<ActiveFanCurves, HpdError>(e),
                    Ok(cpu) => exists|b: Result<FanCurve, HpdError>| #[trigger]
                        curve_gave(s, base@, FAN_GPU, b) && match b {
                            Err(e) => r == Err::<ActiveFanCurves, HpdError>(e),
                            Ok(gpu) => r == Ok::<ActiveFanCurves, HpdError>(
                                ActiveFanCurves { cpu, gpu },
                            ),
                        },
                },
        }
}

// ---------------------------------------------------------------------------
// Texts
// ---------------------------------------------------------------------------

/// One point in words.
pub open spec fn point_text(p: FanCurvePoint) -> Seq<char> {
    "FanCurvePoint { temp_c: "@ + text::dec(p.temp_c as nat) + ", pwm: "@ + text::dec(p.pwm as nat)
        + " }"@
}

/// Points in words, in order, with commas between them.
pub open spec fn points_text(points: Seq<FanCurvePoint>) -> Seq<char> {
    "["@ + text::joined(Seq::new(points.len(), |i: int| point_text(points[i])), ", "@) + "]"@
}

fn point_words(p: FanCurvePoint) -> (r: String)
    ensures
        r@ == point_text(p),
{
    let mut s = "FanCurvePoint { temp_c: ".to_owned();
    text::push_dec(&mut s, p.temp_c as u64);
    s.append(", pwm: ");
    text::push_dec(&mut s, p.pwm as u64);
    s.append(" }");
    s
}

fn points_words(curve: &FanCurve) -> (r: String)
    ensures
        r@ == points_text(curve.points@),
{
    let mut parts: Vec<String> = Vec::new();
    let mut i: usize = 0;
    while i < FAN_CURVE_POINTS
        invariant
            i <= FAN_CURVE_POINTS,
            parts.len() == i,
            forall|k: int| 0 <= k < i ==> (#[trigger] parts@[k])@ == point_text(curve.points@[k]),
        decreases FAN_CURVE_POINTS - i,
    {
        parts.push(point_words(curve.points[i]));
        i = i + 1;
    }
    assert(text::texts(parts@) =~= Seq::new(
        curve.points@.len(),
        |i: int| point_text(curve.points@[i]),
    ));
    let mut s = "[".to_owned();
    s.append(text::join(&parts, ", ").as_str());
    s.append("]");
    s
}

/// Why curves that did not take are refused.
pub open spec fn mismatch_text(
    cpu: FanCurve,
    gpu: FanCurve,
    applied: ActiveFanCurves,
) -> Seq<char> {
    "fan curve read-back mismatch: wrote cpu="@ + points_text(cpu.points@) + " gpu="@ + points_text(
        gpu.points@,
    ) + ", EC reports cpu="@ + points_text(applied.cpu.points@) + " gpu="@ + points_text(
        applied.gpu.points@,
    )
}

fn mismatch_words(cpu: &FanCurve, gpu: &FanCurve, applied: &ActiveFanCurves) -> (r: String)
    ensures
        r@ == mismatch_text(*cpu, *gpu, *applied),
{
    let mut s = "fan curve read-back mismatch: wrote cpu=".to_owned();
    s.append(points_words(cpu).as_str());
    s.append(" gpu=");
    s.append(points_words(gpu).as_str());
    s.append(", EC reports cpu=");
    s.append(points_words(&applied.cpu).as_str());
    s.append(" gpu=");
    s.append(points_words(&applied.gpu).as_str());
    s
}

// ---------------------------------------------------------------------------
// The backend
// ---------------------------------------------------------------------------

/// What is wrong with a selection, whatever the device.
pub open spec fn selection_defect(selection: FanCurveSelection) -> Option<Seq<char>> {
    match selection {
        FanCurveSelection::Preset(_) => None,
        FanCurveSelection::Custom { cpu, gpu } => match cpu.defect() {
            Some(words) => Some(words),
            None => gpu.defect(),
        },
    }
}

/// Whether `cpu` and `gpu` are the curves of a selection.
pub open spec fn curves_of(selection: FanCurveSelection, cpu: FanCurve, gpu: FanCurve) -> bool {
    match selection {
        FanCurveSelection::Preset(preset) => cpu.points@ == preset_points(preset) && gpu == cpu,
        FanCurveSelection::Custom { cpu: a, gpu: b } => cpu == a && gpu == b,
    }
}

/// The curves of a selection; a curve that falls is refused.
pub fn resolve(selection: &FanCurveSelection) -> (r: Result<(FanCurve, FanCurve), HpdError>)
    ensures
        error::refuses(r, selection_defect(*selection)),
        r matches Ok(curves) ==> curves_of(*selection, curves.0, curves.1),
{
    match selection {
        FanCurveSelection::Preset(preset) => Ok(preset_curves(*preset)),
        FanCurveSelection::Custom { cpu, gpu } => {
            if let Err(e) = cpu.validate() {
                return Err(e);
            }
            if let Err(e) = gpu.validate() {
                return Err(e);
            }
            Ok((*cpu, *gpu))
        },
    }
}

/// Whether `r` is the verdict on curves that were written and read back.
pub open spec fn verdict(
    cpu: FanCurve,
    gpu: FanCurve,
    applied: Result<ActiveFanCurves, HpdError>,
    r: Result<(), HpdError>,
) -> bool {
    match applied {
        Err(e) => r == Err::<(), HpdError>(e),
        Ok(curves) => if curves.cpu == cpu && curves.gpu == gpu {
            r is Ok
        } else {
            r matches Err(HpdError::Backend(BackendError::Other(words))) && words@ == mismatch_text(
                cpu,
                gpu,
                curves,
            )
        },
    }
}

/// Hold what was read back against what was written.
pub fn judge(
    cpu: &FanCurve,
    gpu: &FanCurve,
    applied: Result<ActiveFanCurves, HpdError>,
) -> (r: Result<(), HpdError>)
    ensures
        verdict(*cpu, *gpu, applied, r),
{
    match applied {
        Err(e) => Err(e),
        Ok(curves) => if curves.cpu != *cpu || curves.gpu != *gpu {
            Err(HpdError::Backend(BackendError::Other(mismatch_words(cpu, gpu, &curves))))
        } else {
            Ok(())
        },
    }
}

/// Whether the requests from `from` up to `to` looked for the controller and
/// found its node at `node`. They are reads.
pub open spec fn controller_found<S: SysfsIo>(
    s: &S,
    log: Seq<Entry>,
    from: int,
    to: int,
    node: Option<String>,
) -> bool {
    base_gave(s, node) && journal::only_reads(log, from, to)
}

/// Whether the requests from `from` up to `to` programmed both curves and ended
/// in `r`: the writes are made in order, up to the first that fails; then the
/// curves in force are read, and must be those that were written. There are no
/// other requests.
pub open spec fn curves_programmed<S: SysfsIo>(
    s: &S,
    log: Seq<Entry>,
    from: int,
    to: int,
    base: Seq<char>,
    cpu: FanCurve,
    gpu: FanCurve,
    r: Result<(), HpdError>,
) -> bool {
    let writes = curve_commands(base, cpu, gpu);
    let written = from + writes.len();
    ||| r is Err && journal::wrote_in_order(s, log, from, to, writes, r)
    ||| {
        &&& journal::wrote_in_order(s, log, from, written, writes, Ok(()))
        &&& journal::only_reads(log, written, to)
        &&& exists|applied: Result<ActiveFanCurves, HpdError>| #[trigger]
            curves_gave(s, applied) && verdict(cpu, gpu, applied, r)
    }
}

/// Whether the requests from `from` up to `to` programmed a selection and ended
/// in `r`. A curve that falls is refused, and nothing is asked of the hardware.
pub open spec fn selection_applied<S: SysfsIo>(
    s: &S,
    log: Seq<Entry>,
    from: int,
    to: int,
    selection: FanCurveSelection,
    r: Result<(), HpdError>,
) -> bool {
    match selection_defect(selection) {
        Some(words) => to == from && r is Err && error::is_violation(r->Err_0, words),
        None => exists|at: int, node: Option<String>| #[trigger]
            controller_found(s, log, from, at, node) && match node {
                None => to == at && r == Err::<(), HpdError>(HpdError::FeatureUnsupported),
                Some(base) => exists|cpu: FanCurve, gpu: FanCurve|
                    curves_of(selection, cpu, gpu) && #[trigger] curves_programmed(
                        s,
                        log,
                        at,
                        to,
                        base@,
                        cpu,
                        gpu,
                        r,
                    ),
            },
    }
}

/// Whether the requests from `from` up to `to` handed the fans back to the
/// firmware and ended in `r`.
pub open spec fn reset_ended<S: SysfsIo>(
    s: &S,
    log: Seq<Entry>,
    from: int,
    to: int,
    r: Result<(), HpdError>,
) -> bool {
    exists|at: int, node: Option<String>| #[trigger]
        controller_found(s, log, from, at, node) && match node {
            None => to == at && r == Err::<(), HpdError>(HpdError::FeatureUnsupported),
            Some(base) => journal::wrote_in_order(
                s,
                log,
                at,
                to,
                enable_commands(base@, ENABLE_AUTO@),
                r,
            ),
        }
}

/// The curves that the fans run.
pub fn read_curves<S: SysfsIo>(files: &mut Journal<S>) -> (r: Result<ActiveFanCurves, HpdError>)
    ensures
        final(files).files() == old(files).files(),
        hwmon::looked(old(files).log(), final(files).log()),
        curves_gave(old(files).files(), r),
{
    let ghost s = files.files();
    let node = hwmon::find_hwmon(files, CURVE_HWMON_NAME);
    assert(base_gave(s, node));
    match node {
        None => Err(HpdError::FeatureUnsupported),
        Some(base) => {
            let a = read_curve(files, base.as_str(), FAN_CPU);
            let ghost ga = a;
            assert(curve_gave(s, base@, FAN_CPU, ga));
            let cpu = match a {
                Ok(c) => c,
                Err(e) => {
                    return Err(e);
                },
            };
            let b = read_curve(files, base.as_str(), FAN_GPU);
            let ghost gb = b;
            assert(curve_gave(s, base@, FAN_GPU, gb));
            let gpu = match b {
                Ok(c) => c,
                Err(e) => {
                    return Err(e);
                },
            };
            Ok(ActiveFanCurves { cpu, gpu })
        },
    }
}

/// Program a selection.
pub fn program<S: SysfsIo>(files: &mut Journal<S>, selection: &FanCurveSelection) -> (r: Result<
    (),
    HpdError,
>)
    ensures
        final(files).files() == old(files).files(),
        journal::goes_on(old(files).log(), final(files).log()),
        selection_applied(
            old(files).files(),
            final(files).log(),
            old(files).log().len() as int,
            final(files).log().len() as int,
            *selection,
            r,
        ),
{
    let ghost s = files.files();
    let ghost from = files.log().len() as int;
    let (cpu, gpu) = match resolve(selection) {
        Ok(curves) => curves,
        Err(e) => {
            return Err(e);
        },
    };
    let node = hwmon::find_hwmon(files, CURVE_HWMON_NAME);
    let ghost at = files.log().len() as int;
    let ghost found = node;
    assert(controller_found(s, files.log(), from, at, found));
    let base = match node {
        Some(base) => base,
        None => {
            return Err(HpdError::FeatureUnsupported);
        },
    };
    let w = files.write_all(&curve_writes(base.as_str(), &cpu, &gpu));
    assert(controller_found(s, files.log(), from, at, found));
    if w.is_err() {
        assert(curves_programmed(
            s,
            files.log(),
            at,
            files.log().len() as int,
            base@,
            cpu,
            gpu,
            w,
        ));
        return w;
    }
    let ghost written = files.log();
    let applied = read_curves(files);
    let ghost read = applied;
    let r = judge(&cpu, &gpu, applied);
    assert(controller_found(s, files.log(), from, at, found));
    assert(curves_gave(s, read) && verdict(cpu, gpu, read, r));
    assert(curves_programmed(s, files.log(), at, files.log().len() as int, base@, cpu, gpu, r));
    r
}

/// Hand the fans back to the firmware.
pub fn release<S: SysfsIo>(files: &mut Journal<S>) -> (r: Result<(), HpdError>)
    ensures
        final(files).files() == old(files).files(),
        journal::goes_on(old(files).log(), final(files).log()),
        reset_ended(
            old(files).files(),
            final(files).log(),
            old(files).log().len() as int,
            final(files).log().len() as int,
            r,
        ),
{
    let ghost from = files.log().len() as int;
    let node = hwmon::find_hwmon(files, CURVE_HWMON_NAME);
    let ghost at = files.log().len() as int;
    let ghost found = node;
    let r = match node {
        None => Err(HpdError::FeatureUnsupported),
        Some(base) => files.write_all(&enable_writes(base.as_str(), ENABLE_AUTO)),
    };
    assert(controller_found(files.files(), files.log(), from, at, found));
    r
}

/// To read points never breaks a rule.
proof fn lemma_reading_breaks_no_rule<S: SysfsIo>(
    s: &S,
    base: Seq<char>,
    fan: u8,
    first: Seq<FanCurvePoint>,
    r: Result<FanCurve, HpdError>,
)
    requires
        points_gave(s, base, fan, first, r),
    ensures
        r matches Err(e) ==> !(e is InvariantViolation),
    decreases FAN_CURVE_POINTS - first.len(),
{
    if first.len() < FAN_CURVE_POINTS {
        let number = first.len() + 1;
        let a = choose|a: Result<u8, HpdError>| #[trigger]
            coordinate_gave(s, point_path(base, fan, number, "temp"@), a) && match a {
                Err(e) => r == Err::<FanCurve, HpdError>(e),
                Ok(temp) => exists|b: Result<u8, HpdError>| #[trigger]
                    coordinate_gave(s, point_path(base, fan, number, "pwm"@), b) && match b {
                        Err(e) => r == Err::<FanCurve, HpdError>(e),
                        Ok(pwm) => points_gave(s, base, fan, first.push(point(temp, pwm)), r),
                    },
            };
        if let Ok(temp) = a {
            let b = choose|b: Result<u8, HpdError>| #[trigger]
                coordinate_gave(s, point_path(base, fan, number, "pwm"@), b) && match b {
                    Err(e) => r == Err::<FanCurve, HpdError>(e),
                    Ok(pwm) => points_gave(s, base, fan, first.push(point(temp, pwm)), r),
                };
            if let Ok(pwm) = b {
                lemma_reading_breaks_no_rule(s, base, fan, first.push(point(temp, pwm)), r);
            }
        }
    }
}

/// A selection that breaks a rule is refused without a request.
pub proof fn refused_selection_asks_nothing<S: SysfsIo>(
    s: &S,
    log: Seq<Entry>,
    from: int,
    to: int,
    selection: FanCurveSelection,
    r: Result<(), HpdError>,
)
    requires
        selection_applied(s, log, from, to, selection, r),
        r matches Err(HpdError::InvariantViolation(_)),
    ensures
        from == to,
{
    assert forall|base: Seq<char>, fan: u8, curve: Result<FanCurve, HpdError>|
        #[trigger] curve_gave(s, base, fan, curve) implies (curve matches Err(e)
        ==> !(e is InvariantViolation)) by {
        lemma_reading_breaks_no_rule(s, base, fan, Seq::empty(), curve);
    }
}

/// The selection that curves amount to: a preset where both fans run it.
pub open spec fn selection_of(curves: ActiveFanCurves, r: FanCurveSelection) -> bool {
    match r {
        FanCurveSelection::Preset(preset) => curves.cpu.points@ == preset_points(preset)
            && curves.gpu.points@ == preset_points(preset),
        FanCurveSelection::Custom { cpu, gpu } => cpu == curves.cpu && gpu == curves.gpu && forall|
            preset: FanCurvePreset,
        |
            !(curves.cpu.points@ == #[trigger] preset_points(preset) && curves.gpu.points@
                == preset_points(preset)),
    }
}

/// The selection that curves amount to.
pub fn identify(curves: &ActiveFanCurves) -> (r: FanCurveSelection)
    ensures
        selection_of(*curves, r),
{
    let silent = preset_curves(FanCurvePreset::Silent);
    let balanced = preset_curves(FanCurvePreset::Balanced);
    let aggressive = preset_curves(FanCurvePreset::Aggressive);
    if curves.cpu == silent.0 && curves.gpu == silent.1 {
        return FanCurveSelection::Preset(FanCurvePreset::Silent);
    }
    if curves.cpu == balanced.0 && curves.gpu == balanced.1 {
        return FanCurveSelection::Preset(FanCurvePreset::Balanced);
    }
    if curves.cpu == aggressive.0 && curves.gpu == aggressive.1 {
        return FanCurveSelection::Preset(FanCurvePreset::Aggressive);
    }
    proof {
        assert forall|preset: FanCurvePreset|
            !(curves.cpu.points@ == #[trigger] preset_points(preset) && curves.gpu.points@
                == preset_points(preset)) by {
            let known = match preset {
                FanCurvePreset::Silent => silent,
                FanCurvePreset::Balanced => balanced,
                FanCurvePreset::Aggressive => aggressive,
            };
            if curves.cpu.points@ == preset_points(preset) && curves.gpu.points@ == preset_points(
                preset,
            ) {
                assert(curves.cpu.points =~= known.0.points);
                assert(curves.gpu.points =~= known.1.points);
            }
        }
    }
    FanCurveSelection::Custom { cpu: curves.cpu, gpu: curves.gpu }
}

/// Whether the selection in force was found to be `r`: nothing where the
/// firmware's curve runs, else what the points amount to.
pub open spec fn selection_gave<S: SysfsIo>(
    s: &S,
    r: Result<Option<FanCurveSelection>, HpdError>,
) -> bool {
    exists|node: Option<String>| #[trigger]
        base_gave(s, node) && match node {
            None => r == Err::<Option<FanCurveSelection>, HpdError>(HpdError::FeatureUnsupported),
            Some(base) => exists|mode: Result<String, SysfsError>| #[trigger]
                sysfs::read_gave(s, enable_path(base@, FAN_CPU), mode) && match mode {
                    Err(e) => r == Err::<Option<FanCurveSelection>, HpdError>(HpdError::Sysfs(e)),
                    Ok(t) => if text::trimmed(t@) == ENABLE_AUTO@ {
                        r == Ok::<Option<FanCurveSelection>, HpdError>(None)
                    } else {
                        exists|curves: Result<ActiveFanCurves, HpdError>| #[trigger]
                            curves_gave(s, curves) && match curves {
                                Err(e) => r == Err::<Option<FanCurveSelection>, HpdError>(e),
                                Ok(c) => r is Ok && r->Ok_0 is Some && selection_of(c, r->Ok_0->0),
                            }
                    },
                },
        }
}

/// The fan curves of an ASUS handheld.
pub struct AsusFanCurveBackend<S: SysfsIo> {
    pub sysfs: S,
}

impl<S: SysfsIo> AsusFanCurveBackend<S> {
    pub fn new(sysfs: S) -> (r: Self)
        ensures
            r.sysfs == sysfs,
    {
        AsusFanCurveBackend { sysfs }
    }
}

impl<S: SysfsIo> FanCurveControl for AsusFanCurveBackend<S> {
    fn apply(&self, selection: &FanCurveSelection) -> (r: Result<(), HpdError>)
        ensures
            exists|log: Seq<Entry>| #[trigger]
                selection_applied(&self.sysfs, log, 0, log.len() as int, *selection, r),
    {
        let mut files = Journal::new(&self.sysfs);
        program(&mut files, selection)
    }

    fn reset_to_auto(&self) -> (r: Result<(), HpdError>)
        ensures
            exists|log: Seq<Entry>| #[trigger]
                reset_ended(&self.sysfs, log, 0, log.len() as int, r),
    {
        let mut files = Journal::new(&self.sysfs);
        release(&mut files)
    }

    fn get_curves(&self) -> (r: Result<ActiveFanCurves, HpdError>)
        ensures
            curves_gave(&self.sysfs, r),
    {
        let mut files = Journal::new(&self.sysfs);
        read_curves(&mut files)
    }

    fn active_selection(&self) -> (r: Result<Option<FanCurveSelection>, HpdError>)
        ensures
            selection_gave(&self.sysfs, r),
    {
        let node = hwmon::find_hwmon_by_name(&self.sysfs, CURVE_HWMON_NAME);
        assert(base_gave(&self.sysfs, node));
        match node {
            None => Err(HpdError::FeatureUnsupported),
            Some(base) => {
                let path = make_enable_path(base.as_str(), FAN_CPU);
                let mode = sysfs::read(&self.sysfs, path.as_str());
                let ghost read = mode;
                assert(sysfs::read_gave(&self.sysfs, enable_path(base@, FAN_CPU), read));
                match mode {
                    Err(e) => Err(HpdError::Sysfs(e)),
                    Ok(t) => {
                        if text::same(text::trim(t.as_str()), ENABLE_AUTO) {
                            return Ok(None);
                        }
                        let curves = self.get_curves();
                        let ghost held = curves;
                        assert(curves_gave(&self.sysfs, held));
                        match curves {
                            Err(e) => Err(e),
                            Ok(c) => Ok(Some(identify(&c))),
                        }
                    },
                }
            },
        }
    }

    fn constraints(&self) -> (r: FanCurveConstraints)
        ensures
            device_limits(r),
    {
        let mut safety_floor: Vec<(u8, u8)> = Vec::new();
        safety_floor.push((85, 150));
        safety_floor.push((90, 200));
        assert(safety_floor@ =~= seq![(85u8, 150u8), (90u8, 200u8)]);
        FanCurveConstraints { temp_min_c: 30, temp_max_c: 95, pwm_min: 0, pwm_max: 255, safety_floor }
    }
}

// ---------------------------------------------------------------------------
// Laws of the controller
// ---------------------------------------------------------------------------

/// The file of one coordinate of one point of a fan.
pub open spec fn coordinate_file(
    base: Seq<char>,
    fan: Seq<char>,
    number: nat,
    kind: Seq<char>,
) -> Seq<char> {
    base + "/pwm"@ + fan + "_auto_point"@ + text::dec(number) + "_"@ + kind
}

proof fn lemma_fan_numbers()
    ensures
        text::dec(1) == "1"@,
        text::dec(2) == "2"@,
{
    reveal_strlit("1");
    reveal_strlit("2");
    assert(text::dec(1) =~= "1"@);
    assert(text::dec(2) =~= "2"@);
}

proof fn lemma_point_commands(base: Seq<char>, fan: u8, points: Seq<FanCurvePoint>, n: nat, k: int)
    requires
        0 <= k < n,
    ensures
        point_commands(base, fan, points, n).len() == 2 * n,
        point_commands(base, fan, points, n)[2 * k] == (
            point_path(base, fan, (k + 1) as nat, "temp"@),
            text::dec(points[k].temp_c as nat),
        ),
        point_commands(base, fan, points, n)[2 * k + 1] == (
            point_path(base, fan, (k + 1) as nat, "pwm"@),
            text::dec(points[k].pwm as nat),
        ),
    decreases n,
{
    lemma_point_count(base, fan, points, n);
    lemma_point_count(base, fan, points, (n - 1) as nat);
    if k < n - 1 {
        lemma_point_commands(base, fan, points, (n - 1) as nat, k);
    }
}

proof fn lemma_point_count(base: Seq<char>, fan: u8, points: Seq<FanCurvePoint>, n: nat)
    ensures
        point_commands(base, fan, points, n).len() == 2 * n,
    decreases n,
{
    if n > 0 {
        lemma_point_count(base, fan, points, (n - 1) as nat);
    }
}

/// Programming writes each point of either curve to its own files: the CPU's under the first
/// fan and the GPU's under the second, the temperature as the temperature and the duty as the
/// duty. Only after all of them both fans are switched over.
pub proof fn every_point_is_written_to_its_file(
    base: &str,
    cpu: FanCurve,
    gpu: FanCurve,
    writes: Vec<(String, String)>,
    k: int,
)
    requires
        call_ensures(curve_writes, (base, &cpu, &gpu), writes),
        0 <= k < 8,
    ensures
        ({
            let w = journal::pairs(writes@);
            let n = (k + 1) as nat;
            &&& w.len() == 34
            &&& w[2 * k] == (
                coordinate_file(base@, "1"@, n, "temp"@),
                text::dec(cpu.points@[k].temp_c as nat),
            )
            &&& w[2 * k + 1] == (
                coordinate_file(base@, "1"@, n, "pwm"@),
                text::dec(cpu.points@[k].pwm as nat),
            )
            &&& w[16 + 2 * k] == (
                coordinate_file(base@, "2"@, n, "temp"@),
                text::dec(gpu.points@[k].temp_c as nat),
            )
            &&& w[16 + 2 * k + 1] == (
                coordinate_file(base@, "2"@, n, "pwm"@),
                text::dec(gpu.points@[k].pwm as nat),
            )
            &&& w[32] == (base@ + "/pwm"@ + "1"@ + "_enable"@, "1"@)
            &&& w[33] == (base@ + "/pwm"@ + "2"@ + "_enable"@, "1"@)
        }),
{
    lemma_fan_numbers();
    lemma_point_commands(base@, FAN_CPU, cpu.points@, 8, k);
    lemma_point_commands(base@, FAN_GPU, gpu.points@, 8, k);
}

/// Handing back switches both fans to the firmware's own curve.
pub proof fn handing_back_switches_both_fans<S: SysfsIo>(
    backend: AsusFanCurveBackend<S>,
)
    requires
        call_ensures(
            <AsusFanCurveBackend<S> as FanCurveControl>::reset_to_auto,
            (&backend,),
            Ok(()),
        ),
    ensures
        exists|log: Seq<Entry>, at: int, base: String|
            #![trigger journal::write_at(&backend.sysfs, log, at, base@ + "/pwm"@ + "1"@ + "_enable"@, "2"@)]
            journal::write_at(
                &backend.sysfs,
                log,
                at,
                base@ + "/pwm"@ + "1"@ + "_enable"@,
                "2"@,
            ) && journal::write_at(
                &backend.sysfs,
                log,
                at + 1,
                base@ + "/pwm"@ + "2"@ + "_enable"@,
                "2"@,
            ) && log.len() == at + 2,
{
    let s = &backend.sysfs;
    lemma_fan_numbers();
    let log = choose|log: Seq<Entry>| #[trigger] reset_ended(s, log, 0, log.len() as int, Ok(()));
    let (at, node) = choose|at: int, node: Option<String>| #[trigger]
        controller_found(s, log, 0, at, node) && match node {
            None => false,
            Some(base) => journal::wrote_in_order(
                s,
                log,
                at,
                log.len() as int,
                enable_commands(base@, ENABLE_AUTO@),
                Ok(()),
            ),
        };
    let base = node->0;
    let first = log[at];
    let second = log[at + 1];
    assert(journal::write_at(s, log, at, base@ + "/pwm"@ + "1"@ + "_enable"@, "2"@));
    assert(journal::write_at(s, log, at + 1, base@ + "/pwm"@ + "2"@ + "_enable"@, "2"@));
}

/// Whether the file at `path` told this number.
pub open spec fn told_number<S: SysfsIo>(s: &S, path: Seq<char>, n: u8) -> bool {
    exists|t: String| #[trigger]
        sysfs::read_gave(s, path, Ok(t)) && text::unsigned_value(text::trimmed(t@)) == Some(
            n as nat,
        )
}

/// A curve that is read has each coordinate from its own file.
pub proof fn every_point_is_read_from_its_file<S: SysfsIo>(
    backend: AsusFanCurveBackend<S>,
    curves: ActiveFanCurves,
    k: int,
)
    requires
        call_ensures(
            <AsusFanCurveBackend<S> as FanCurveControl>::get_curves,
            (&backend,),
            Ok(curves),
        ),
        0 <= k < 8,
    ensures
        exists|base: String| #[trigger]
            hwmon::first_hwmon_gave(&backend.sysfs, "asus_custom_fan_curve"@, Some(base)) && {
                let s = &backend.sysfs;
                let n = (k + 1) as nat;
                &&& told_number(
                    s,
                    coordinate_file(base@, "1"@, n, "temp"@),
                    curves.cpu.points@[k].temp_c,
                )
                &&& told_number(
                    s,
                    coordinate_file(base@, "1"@, n, "pwm"@),
                    curves.cpu.points@[k].pwm,
                )
                &&& told_number(
                    s,
                    coordinate_file(base@, "2"@, n, "temp"@),
                    curves.gpu.points@[k].temp_c,
                )
                &&& told_number(
                    s,
                    coordinate_file(base@, "2"@, n, "pwm"@),
                    curves.gpu.points@[k].pwm,
                )
            },
{
    let s = &backend.sysfs;
    lemma_fan_numbers();
    let node = choose|node: Option<String>| #[trigger]
        base_gave(s, node) && match node {
            None => false,
            Some(base) => curve_gave(s, base@, FAN_CPU, Ok(curves.cpu)) && curve_gave(
                s,
                base@,
                FAN_GPU,
                Ok(curves.gpu),
            ),
        };
    let base = node->0;
    assert(node == Some(base));
    lemma_points_told(s, base@, FAN_CPU, Seq::empty(), curves.cpu, k);
    lemma_points_told(s, base@, FAN_GPU, Seq::empty(), curves.gpu, k);
    assert(hwmon::first_hwmon_gave(s, "asus_custom_fan_curve"@, Some(base)));
}

proof fn lemma_points_told<S: SysfsIo>(
    s: &S,
    base: Seq<char>,
    fan: u8,
    first: Seq<FanCurvePoint>,
    curve: FanCurve,
    k: int,
)
    requires
        points_gave(s, base, fan, first, Ok(curve)),
        first.len() <= 8,
        0 <= k < 8,
    ensures
        forall|i: int| 0 <= i < first.len() ==> #[trigger] curve.points@[i] == first[i],
        k >= first.len() ==> told_number(
            s,
            point_path(base, fan, (k + 1) as nat, "temp"@),
            curve.points@[k].temp_c,
        ) && told_number(
            s,
            point_path(base, fan, (k + 1) as nat, "pwm"@),
            curve.points@[k].pwm,
        ),
    decreases 8 - first.len(),
{
    if first.len() < 8 {
        let number = first.len() + 1;
        let r = Ok::<FanCurve, HpdError>(curve);
        let a = choose|a: Result<u8, HpdError>| #[trigger]
            coordinate_gave(s, point_path(base, fan, number, "temp"@), a) && match a {
                Err(e) => false,
                Ok(temp) => exists|b: Result<u8, HpdError>| #[trigger]
                    coordinate_gave(s, point_path(base, fan, number, "pwm"@), b) && match b {
                        Err(e) => false,
                        Ok(pwm) => points_gave(s, base, fan, first.push(point(temp, pwm)), r),
                    },
            };
        let temp = a->Ok_0;
        let b = choose|b: Result<u8, HpdError>| #[trigger]
            coordinate_gave(s, point_path(base, fan, number, "pwm"@), b) && match b {
                Err(e) => false,
                Ok(pwm) => points_gave(s, base, fan, first.push(point(temp, pwm)), r),
            };
        let pwm = b->Ok_0;
        let more = first.push(point(temp, pwm));
        lemma_points_told(s, base, fan, more, curve, k);
        assert(curve.points@[first.len() as int] == more[first.len() as int]);
        assert forall|i: int| 0 <= i < first.len() implies #[trigger] curve.points@[i] == first[i] by {
            assert(curve.points@[i] == more[i]);
        }
        lemma_number_told(s, point_path(base, fan, number, "temp"@), temp);
        lemma_number_told(s, point_path(base, fan, number, "pwm"@), pwm);
    }
}

proof fn lemma_number_told<S: SysfsIo>(s: &S, path: Seq<char>, n: u8)
    requires
        coordinate_gave(s, path, Ok(n)),
    ensures
        told_number(s, path, n),
{
    let raw = choose|raw: Result<String, SysfsError>| #[trigger]
        sysfs::read_gave(s, path, raw) && coordinate_from(raw, Ok(n));
    let t = raw->Ok_0;
    assert(raw == Ok::<String, SysfsError>(t));
}

/// Curves are taken only where the controller tells those very curves afterwards, each on its
/// fan.
pub proof fn only_the_curves_that_were_asked_for_are_taken(
    cpu: FanCurve,
    gpu: FanCurve,
    applied: Result<ActiveFanCurves, HpdError>,
    r: Result<(), HpdError>,
)
    requires
        call_ensures(judge, (&cpu, &gpu, applied), r),
    ensures
        r is Ok <==> (applied matches Ok(held) && held.cpu == cpu && held.gpu == gpu),
{
}

/// The limits of the device, as it is told to clients.
pub proof fn the_device_tells_its_limits<S: SysfsIo>(
    backend: AsusFanCurveBackend<S>,
    r: FanCurveConstraints,
)
    requires
        call_ensures(
            <AsusFanCurveBackend<S> as FanCurveControl>::constraints,
            (&backend,),
            r,
        ),
    ensures
        r.temp_min_c == 30 && r.temp_max_c == 95,
        r.pwm_min == 0 && r.pwm_max == 255,
        r.safety_floor@.len() == 2,
        r.safety_floor@[0] == (85u8, 150u8),
        r.safety_floor@[1] == (90u8, 200u8),
{
}

/// The fans are with the firmware exactly where the controller says so.
pub proof fn firmware_curves_are_told_as_none<S: SysfsIo>(
    backend: AsusFanCurveBackend<S>,
    r: Result<Option<FanCurveSelection>, HpdError>,
)
    requires
        call_ensures(
            <AsusFanCurveBackend<S> as FanCurveControl>::active_selection,
            (&backend,),
            r,
        ),
    ensures
        r matches Ok(selection) ==> exists|base: String, t: String| #[trigger]
            hwmon::first_hwmon_gave(&backend.sysfs, "asus_custom_fan_curve"@, Some(base))
                && #[trigger] sysfs::read_gave(
                &backend.sysfs,
                base@ + "/pwm"@ + "1"@ + "_enable"@,
                Ok(t),
            ) && (selection is None <==> text::trimmed(t@) == "2"@),
{
    let s = &backend.sysfs;
    lemma_fan_numbers();
    if let Ok(selection) = r {
        let node = choose|node: Option<String>| #[trigger]
            base_gave(s, node) && match node {
                None => false,
                Some(base) => exists|mode: Result<String, SysfsError>| #[trigger]
                    sysfs::read_gave(s, enable_path(base@, FAN_CPU), mode) && match mode {
                        Err(e) => false,
                        Ok(t) => selection is None <==> text::trimmed(t@) == ENABLE_AUTO@,
                    },
            };
        let base = node->0;
        assert(node == Some(base));
        let mode = choose|mode: Result<String, SysfsError>| #[trigger]
            sysfs::read_gave(s, enable_path(base@, FAN_CPU), mode) && match mode {
                Err(e) => false,
                Ok(t) => selection is None <==> text::trimmed(t@) == ENABLE_AUTO@,
            };
        let t = mode->Ok_0;
        assert(mode == Ok::<String, SysfsError>(t));
        assert(hwmon::first_hwmon_gave(s, "asus_custom_fan_curve"@, Some(base)));
        assert(sysfs::read_gave(s, base@ + "/pwm"@ + "1"@ + "_enable"@, Ok(t)));
    }
}

/// The temperatures of a curve, in order.
pub open spec fn temperatures(curve: FanCurve) -> Seq<u8> {
    curve.points@.map_values(|p: FanCurvePoint| p.temp_c)
}

/// The duties of a curve, in order.
pub open spec fn duties(curve: FanCurve) -> Seq<u8> {
    curve.points@.map_values(|p: FanCurvePoint| p.pwm)
}

/// Each level runs its own duties at its own temperatures, and both fans run the same.
pub proof fn levels_run_their_duties(preset: FanCurvePreset, r: (FanCurve, FanCurve))
    requires
        call_ensures(preset_curves, (preset,), r),
    ensures
        r.0 == r.1,
        preset is Silent ==> temperatures(r.0) == seq![48u8, 56, 63, 70, 77, 83, 88, 93] && duties(
            r.0,
        ) == seq![8u8, 20, 38, 64, 102, 140, 190, 230],
        preset is Balanced ==> temperatures(r.0) == seq![45u8, 54, 62, 69, 76, 82, 87, 92]
            && duties(r.0) == seq![15u8, 33, 64, 102, 140, 178, 216, 255],
        preset is Aggressive ==> temperatures(r.0) == seq![40u8, 50, 58, 65, 72, 79, 85, 91]
            && duties(r.0) == seq![26u8, 64, 102, 140, 178, 210, 240, 255],
{
    let points = r.0.points@;
    assert(temperatures(r.0).len() == 8);
    assert(duties(r.0).len() == 8);
}

} // verus!
