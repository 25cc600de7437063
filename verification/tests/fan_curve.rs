use hpd::error::HpdError;
use hpd::fan_curve::{
    FanCurve, FanCurveConstraints, FanCurvePoint, FanCurvePreset, FAN_CURVE_POINTS, PWM_MAX,
};

fn flat(temp: u8, pwm: u8) -> FanCurve {
    FanCurve::new([FanCurvePoint::new(temp, pwm); FAN_CURVE_POINTS])
}

#[test]
fn monotonic_curve_validates() {
    let c = FanCurve::new([
        FanCurvePoint::new(45, 15),
        FanCurvePoint::new(54, 33),
        FanCurvePoint::new(62, 64),
        FanCurvePoint::new(69, 102),
        FanCurvePoint::new(76, 140),
        FanCurvePoint::new(82, 178),
        FanCurvePoint::new(87, 216),
        FanCurvePoint::new(92, 255),
    ]);
    assert!(c.validate().is_ok());
}

#[test]
fn equal_points_are_allowed() {
    assert!(flat(62, 56).validate().is_ok());
}

#[test]
fn decreasing_temperature_is_rejected() {
    let mut c = flat(60, 80);
    c.points[3] = FanCurvePoint::new(40, 80);
    assert!(c.validate().is_err());
}

#[test]
fn decreasing_duty_is_rejected() {
    let mut c = flat(60, 80);
    c.points[5] = FanCurvePoint::new(60, 10);
    assert!(c.validate().is_err());
}

#[test]
fn preset_string_round_trips() {
    for p in FanCurvePreset::ALL {
        assert_eq!(FanCurvePreset::from_str(p.as_str()).unwrap(), p);
    }
    assert_eq!(
        FanCurvePreset::from_str("AGGRESSIVE").unwrap(),
        FanCurvePreset::Aggressive
    );
    assert!(FanCurvePreset::from_str("turbo").is_err());
}

fn sample_constraints() -> FanCurveConstraints {
    FanCurveConstraints {
        temp_min_c: 30,
        temp_max_c: 95,
        pwm_min: 0,
        pwm_max: PWM_MAX,
        safety_floor: vec![(85, 150), (90, 200)],
    }
}

fn valid_custom_curve() -> FanCurve {
    FanCurve::new([
        FanCurvePoint::new(45, 20),
        FanCurvePoint::new(54, 50),
        FanCurvePoint::new(62, 95),
        FanCurvePoint::new(69, 145),
        FanCurvePoint::new(75, 190),
        FanCurvePoint::new(80, 225),
        FanCurvePoint::new(85, 255),
        FanCurvePoint::new(92, 255),
    ])
}

#[test]
fn valid_custom_curve_passes_validate_against() {
    assert!(valid_custom_curve()
        .validate_against(&sample_constraints())
        .is_ok());
}

#[test]
fn equal_temperatures_are_rejected_by_validate_against() {
    let mut c = valid_custom_curve();
    c.points[3] = FanCurvePoint::new(c.points[2].temp_c, 120);
    assert!(c.validate_against(&sample_constraints()).is_err());
}

#[test]
fn decreasing_duty_is_rejected_by_validate_against() {
    let mut c = valid_custom_curve();
    c.points[5] = FanCurvePoint::new(c.points[5].temp_c, 10);
    assert!(c.validate_against(&sample_constraints()).is_err());
}

#[test]
fn temperature_outside_device_range_is_rejected() {
    let mut c = valid_custom_curve();
    c.points[7] = FanCurvePoint::new(96, 255);
    assert!(c.validate_against(&sample_constraints()).is_err());
}

#[test]
fn pwm_outside_device_range_is_rejected() {
    let mut c = valid_custom_curve();
    c.points[0] = FanCurvePoint::new(31, 0);
    let mut constraints = sample_constraints();
    constraints.pwm_min = 5;
    assert!(c.validate_against(&constraints).is_err());
}

fn curve_with_last_two(second_last: (u8, u8), last: (u8, u8)) -> FanCurve {
    FanCurve::new([
        FanCurvePoint::new(45, 20),
        FanCurvePoint::new(54, 40),
        FanCurvePoint::new(62, 60),
        FanCurvePoint::new(69, 80),
        FanCurvePoint::new(75, 100),
        FanCurvePoint::new(80, 120),
        FanCurvePoint::new(second_last.0, second_last.1),
        FanCurvePoint::new(last.0, last.1),
    ])
}

#[test]
fn safety_floor_violation_is_rejected_with_specific_message() {
    let c = curve_with_last_two((85, 150), (90, 199));
    let err = c.validate_against(&sample_constraints()).unwrap_err();
    assert!(
        err.to_string().contains("90°C requires pwm ≥ 200"),
        "unexpected message: {err:?}"
    );
}

#[test]
fn safety_floor_satisfied_exactly_at_the_boundary_passes() {
    let c = curve_with_last_two((85, 150), (90, 200));
    assert!(c.validate_against(&sample_constraints()).is_ok());
}

#[test]
fn stricter_higher_threshold_floor_applies_even_if_the_lower_one_is_also_met() {
    let c = curve_with_last_two((85, 150), (92, 180));
    let err = c.validate_against(&sample_constraints()).unwrap_err();
    assert!(
        err.to_string().contains("requires pwm ≥ 200"),
        "unexpected message: {err:?}"
    );
}

fn refusal(c: &FanCurve) -> String {
    match c.validate_against(&sample_constraints()) {
        Err(HpdError::InvariantViolation(words)) => words,
        other => panic!("unexpected: {other:?}"),
    }
}

#[test]
fn a_refusal_names_the_point_and_the_rule() {
    let mut c = valid_custom_curve();
    c.points[3] = FanCurvePoint::new(62, 120);
    assert_eq!(
        refusal(&c),
        "point 4: fan curve temperatures must strictly increase: 62°C after 62°C"
    );
    let mut c = valid_custom_curve();
    c.points[5] = FanCurvePoint::new(80, 10);
    assert_eq!(
        refusal(&c),
        "point 6: fan curve duty must not decrease: pwm 10 after 190"
    );
    let mut c = valid_custom_curve();
    c.points[7] = FanCurvePoint::new(96, 255);
    assert_eq!(
        refusal(&c),
        "point 8: 96°C is outside the device's supported range (30..=95°C)"
    );
}
