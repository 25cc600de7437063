use hpd::actions::PolkitAction;
use hpd::backend::{HwBackend, PowerHandle};
use hpd::error::HpdError;
use hpd::fan::FanControl;
use hpd::fan_curve::{
    ActiveFanCurves, FanCurveConstraints, FanCurveControl, FanCurvePoint, FanCurvePreset,
    FanCurveSelection, FAN_CURVE_POINTS,
};
use hpd::gpu_clock::{
    GpuClockConstraints, GpuClockRange, GpuClockRangeControl, GpuClockSelection,
};
use hpd::polkit::{authorized, diagnostics, missing_actions, policy_is_missing};
use hpd::power::{PowerEnvelope, PowerEnvelopeLimits, PowerEnvelopeTarget};
use hpd::profile::{ProfileName, TdpPreset};
use hpd::readings::{
    get_telemetry, get_thermal_status, summarize, FanReadings, Reading, ThermalReadings,
    TELEMETRY_UNAVAILABLE,
};
use hpd::request::RequestError;
use hpd::service::{
    active_profile, changed_properties, check, conclude, current_spl, executor_down, fan_curve,
    get_fan_curve, get_fan_curve_constraints, get_gpu_clock_constraints, get_gpu_clock_range,
    get_hardware_limits, gpu_clock_range, judge_curves, judge_range, parse_fan_curve, Intent,
    Pending, Property, Request,
};
use hpd::state::ProfileState;
use hpd::telemetry::SystemTelemetry;
use hpd::thermal::ThermalSensors;
use hpd::transition::Transition;
use hpd::units::{Celsius, PowerMilliwatts, Rpm};

fn sample_state() -> ProfileState {
    ProfileState {
        power_target: PowerEnvelopeTarget {
            spl: PowerMilliwatts(15000),
            sppt: PowerMilliwatts(17000),
            fppt: Some(PowerMilliwatts(20000)),
        },
        active_profile: ProfileName::Balanced,
        charge_end_threshold: 80,
        fan_follows_tdp: true,
        last_dc_state: None,
        active_fan_curve: None,
        active_gpu_clock: None,
        gpu_follows_tdp: false,
        is_ac_connected: false,
        ac_max_performance: true,
        ac_locked: false,
    }
}

fn sample_limits() -> PowerEnvelopeLimits {
    PowerEnvelopeLimits {
        spl_min: PowerMilliwatts(7000),
        spl_max: PowerMilliwatts(35000),
        sppt_min: PowerMilliwatts(7000),
        sppt_max: PowerMilliwatts(43000),
        fppt_min: PowerMilliwatts(7000),
        fppt_max: PowerMilliwatts(53000),
    }
}

struct TelemetryFixture;

impl PowerEnvelope for TelemetryFixture {
    fn get_limits(&self) -> Result<PowerEnvelopeLimits, HpdError> {
        Ok(sample_limits())
    }

    fn get_target(&self) -> Result<PowerEnvelopeTarget, HpdError> {
        Ok(sample_state().power_target)
    }

    fn set_target(&self, _target: &PowerEnvelopeTarget) -> Result<(), HpdError> {
        Ok(())
    }
}

impl ThermalSensors for TelemetryFixture {
    fn get_cpu_temp(&self) -> Result<Option<Celsius>, HpdError> {
        Ok(Some(Celsius(65)))
    }

    fn get_gpu_temp(&self) -> Result<Option<Celsius>, HpdError> {
        Ok(None)
    }

    fn get_soc_power(&self) -> Result<Option<PowerMilliwatts>, HpdError> {
        Ok(Some(PowerMilliwatts(18300)))
    }
}

impl FanControl for TelemetryFixture {
    fn get_cpu_fan_rpm(&self) -> Result<Rpm, HpdError> {
        Ok(Rpm(4200))
    }

    fn get_gpu_fan_rpm(&self) -> Result<Option<Rpm>, HpdError> {
        Ok(None)
    }
}

impl SystemTelemetry for TelemetryFixture {
    fn get_battery_power(&self) -> Result<Option<PowerMilliwatts>, HpdError> {
        Ok(Some(PowerMilliwatts(15000)))
    }

    fn get_battery_percent(&self) -> Result<Option<u8>, HpdError> {
        Ok(Some(64))
    }

    fn get_battery_status(&self) -> Result<Option<String>, HpdError> {
        Ok(Some("Discharging".to_string()))
    }
}

impl FanCurveControl for TelemetryFixture {
    fn apply(&self, _selection: &FanCurveSelection) -> Result<(), HpdError> {
        Ok(())
    }

    fn reset_to_auto(&self) -> Result<(), HpdError> {
        Ok(())
    }

    fn get_curves(&self) -> Result<ActiveFanCurves, HpdError> {
        Err(HpdError::FeatureUnsupported)
    }

    fn active_selection(&self) -> Result<Option<FanCurveSelection>, HpdError> {
        Ok(None)
    }

    fn constraints(&self) -> FanCurveConstraints {
        FanCurveConstraints {
            temp_min_c: 30,
            temp_max_c: 95,
            pwm_min: 0,
            pwm_max: 255,
            safety_floor: vec![(85, 150), (90, 200)],
        }
    }
}

impl GpuClockRangeControl for TelemetryFixture {
    fn set_range(&self, _range: &GpuClockRange) -> Result<(), HpdError> {
        Ok(())
    }

    fn reset_to_auto(&self) -> Result<(), HpdError> {
        Ok(())
    }

    fn active_range(&self) -> Result<Option<GpuClockRange>, HpdError> {
        Ok(Some(GpuClockRange { min_mhz: 600, max_mhz: 1_800 }))
    }

    fn constraints(&self) -> Result<GpuClockConstraints, HpdError> {
        Ok(GpuClockConstraints { range_min_mhz: 600, range_max_mhz: 2_900 })
    }
}

impl HwBackend for TelemetryFixture {
    fn power(&self) -> PowerHandle<'_> {
        PowerHandle(self)
    }

    fn thermal(&self) -> Option<&dyn ThermalSensors> {
        Some(self)
    }

    fn fan(&self) -> Option<&dyn FanControl> {
        Some(self)
    }

    fn telemetry(&self) -> Option<&dyn SystemTelemetry> {
        Some(self)
    }

    fn fan_curve(&self) -> Option<&dyn FanCurveControl> {
        Some(self)
    }

    fn gpu_clock(&self) -> Option<&dyn GpuClockRangeControl> {
        Some(self)
    }
}

struct PowerOnlyBackend;

impl PowerEnvelope for PowerOnlyBackend {
    fn get_limits(&self) -> Result<PowerEnvelopeLimits, HpdError> {
        Ok(PowerEnvelopeLimits {
            spl_min: PowerMilliwatts(7_000),
            spl_max: PowerMilliwatts(35_000),
            sppt_min: PowerMilliwatts(7_000),
            sppt_max: PowerMilliwatts(43_000),
            fppt_min: PowerMilliwatts(7_000),
            fppt_max: PowerMilliwatts(55_000),
        })
    }

    fn get_target(&self) -> Result<PowerEnvelopeTarget, HpdError> {
        Ok(PowerEnvelopeTarget {
            spl: PowerMilliwatts(15_000),
            sppt: PowerMilliwatts(17_000),
            fppt: Some(PowerMilliwatts(19_000)),
        })
    }

    fn set_target(&self, _target: &PowerEnvelopeTarget) -> Result<(), HpdError> {
        Ok(())
    }
}

impl HwBackend for PowerOnlyBackend {
    fn power(&self) -> PowerHandle<'_> {
        PowerHandle(self)
    }
}

#[test]
fn power_only_backend_compiles_and_returns_none_for_optional_caps() {
    let b = PowerOnlyBackend;
    assert!(b.power().0.get_limits().is_ok());
    assert!(b.charge().is_none());
    assert!(b.profile().is_none());
    assert!(b.fan().is_none());
    assert!(b.fan_curve().is_none());
    assert!(b.gpu_clock().is_none());
}

fn reading<'a>(telemetry: &'a [(&'static str, Reading)], key: &str) -> Option<&'a Reading> {
    telemetry.iter().find(|(name, _)| *name == key).map(|(_, r)| r)
}

#[test]
fn get_telemetry_reports_present_and_omits_absent_keys() {
    let telemetry = get_telemetry(&TelemetryFixture);
    assert!(matches!(reading(&telemetry, "cpu_temp_c"), Some(Reading::Int(65))));
    assert!(matches!(reading(&telemetry, "cpu_fan_rpm"), Some(Reading::Uint(4200))));
    assert!(matches!(reading(&telemetry, "soc_power_mw"), Some(Reading::Uint(18300))));
    assert!(matches!(reading(&telemetry, "battery_power_mw"), Some(Reading::Uint(15000))));
    assert!(matches!(reading(&telemetry, "battery_percent"), Some(Reading::Uint(64))));
    assert!(matches!(
        reading(&telemetry, "battery_status"),
        Some(Reading::Text(status)) if status == "Discharging"
    ));
    for missing_key in [
        "gpu_temp_c",
        "gpu_fan_rpm",
        "battery_health_pct",
        "battery_cycles",
        "cpu_freq_mhz",
        "gpu_freq_mhz",
        "gpu_busy_pct",
        "cpu_busy_pct",
        "vram_used_mb",
        "vram_total_mb",
        "gpu_throttle_status",
    ] {
        assert!(
            reading(&telemetry, missing_key).is_none(),
            "key `{missing_key}` should be omitted when the hardware doesn't expose it, \
             not present with a placeholder"
        );
    }
}

#[test]
fn a_device_without_sensors_reports_nothing() {
    assert!(get_telemetry(&PowerOnlyBackend).is_empty());
    let none = TELEMETRY_UNAVAILABLE;
    assert_eq!(get_thermal_status(&PowerOnlyBackend), (none, none, none, none, none));
}

#[test]
fn the_thermal_status_is_bare_numbers() {
    let none = TELEMETRY_UNAVAILABLE;
    assert_eq!(get_thermal_status(&TelemetryFixture), (65, none, 4200, none, 18300));
    let thermal = ThermalReadings {
        cpu_temp: Some(Celsius(-5)),
        gpu_temp: None,
        soc_power: Some(PowerMilliwatts(u32::MAX)),
    };
    let fans = FanReadings { cpu_fan: Some(Rpm(0)), gpu_fan: Some(Rpm(u16::MAX)) };
    assert_eq!(summarize(&thermal, &fans), (-5, none, 0, 65535, i32::MAX));
}

#[test]
fn get_fan_curve_constraints_reports_the_device_limits() {
    let constraints = get_fan_curve_constraints(&TelemetryFixture).unwrap();
    assert_eq!(FAN_CURVE_POINTS, 8);
    assert_eq!(constraints.temp_min_c, 30);
    assert_eq!(constraints.temp_max_c, 95);
    assert_eq!(constraints.pwm_min, 0);
    assert_eq!(constraints.pwm_max, 255);
    assert_eq!(constraints.safety_floor, vec![(85, 150), (90, 200)]);
    assert!(get_fan_curve_constraints(&PowerOnlyBackend).is_none());
}

#[test]
fn get_gpu_clock_constraints_reports_the_device_bounds() {
    let constraints = get_gpu_clock_constraints(&TelemetryFixture).unwrap();
    assert_eq!(constraints.range_min_mhz, 600);
    assert_eq!(constraints.range_max_mhz, 2_900);
    assert!(get_gpu_clock_constraints(&PowerOnlyBackend).is_none());
}

#[test]
fn get_gpu_clock_range_reads_the_active_range_back() {
    assert_eq!(get_gpu_clock_range(&TelemetryFixture), (600, 1_800));
    assert_eq!(get_gpu_clock_range(&PowerOnlyBackend), (0, 0));
}

#[test]
fn gpu_clock_range_property_reflects_active_selection() {
    let mut state = sample_state();
    assert_eq!(gpu_clock_range(&state), "auto");
    assert!(!state.gpu_follows_tdp);

    state.active_gpu_clock = Some(GpuClockSelection::Preset(FanCurvePreset::Aggressive));
    state.gpu_follows_tdp = true;
    assert_eq!(gpu_clock_range(&state), "aggressive");

    state.active_gpu_clock = Some(GpuClockSelection::Custom(GpuClockRange {
        min_mhz: 600,
        max_mhz: 1_000,
    }));
    assert_eq!(gpu_clock_range(&state), "custom");
}

#[test]
fn parse_fan_curve_rejects_wrong_point_count() {
    let seven_points = vec![
        (45, 20),
        (54, 40),
        (62, 60),
        (69, 80),
        (75, 100),
        (80, 120),
        (85, 150),
    ];
    let refusal = parse_fan_curve(seven_points).unwrap_err();
    assert!(matches!(&refusal, RequestError::InvalidArgs(_)));
    assert_eq!(
        refusal.to_string(),
        "fan curve must have exactly 8 (temp_c, pwm) points, got 7"
    );
}

fn eight_points() -> Vec<(u8, u8)> {
    vec![
        (45, 20),
        (54, 40),
        (62, 60),
        (69, 80),
        (75, 100),
        (80, 120),
        (85, 150),
        (92, 200),
    ]
}

#[test]
fn parse_fan_curve_accepts_exactly_eight_points() {
    let curve = parse_fan_curve(eight_points()).expect("exactly 8 points must parse");
    assert_eq!(curve.points[0], FanCurvePoint::new(45, 20));
    assert_eq!(curve.points[7], FanCurvePoint::new(92, 200));
}

#[test]
fn curves_are_held_against_the_device() {
    let limits = TelemetryFixture.fan_curve().unwrap().constraints();
    let good = parse_fan_curve(eight_points()).unwrap();
    assert!(judge_curves(&good, &good, &limits).is_ok());
    let mut weak = good;
    weak.points[7] = FanCurvePoint::new(92, 199);
    let refusal = judge_curves(&good, &weak, &limits).unwrap_err();
    assert!(refusal.to_string().starts_with("gpu curve, State invariant violated: "));
    let refusal = judge_curves(&weak, &weak, &limits).unwrap_err();
    assert!(refusal.to_string().starts_with("cpu curve, State invariant violated: "));
}

#[test]
fn a_clock_range_is_held_against_the_device() {
    let clocks = GpuClockConstraints { range_min_mhz: 600, range_max_mhz: 2_900 };
    let range = GpuClockRange { min_mhz: 600, max_mhz: 1_000 };
    assert!(judge_range(&range, Ok(clocks)).is_ok());
    let refusal = judge_range(&range, Err(HpdError::FeatureUnsupported)).unwrap_err();
    assert!(matches!(&refusal, RequestError::Failed(_)));
    assert_eq!(
        refusal.to_string(),
        "could not read GPU clock constraints: Feature not supported on this hardware"
    );
    let wide = GpuClockRange { min_mhz: 600, max_mhz: 3_000 };
    assert!(matches!(judge_range(&wide, Ok(clocks)), Err(RequestError::InvalidArgs(_))));
}

fn pending(request: Request) -> Result<Pending, RequestError> {
    check(&sample_state(), &TelemetryFixture, request)
}

#[test]
fn requests_come_to_transitions() {
    let p = pending(Request::SetSpl(20)).unwrap();
    assert_eq!(p.actions, vec![PolkitAction::SetTdp]);
    assert!(matches!(conclude(p.intent, true), Ok(Transition::SetSpl(20))));

    let p = pending(Request::SetPreset("ECO".to_string())).unwrap();
    assert!(matches!(
        conclude(p.intent, true),
        Ok(Transition::SetPreset(TdpPreset::Eco))
    ));

    let p = pending(Request::SetProfile("quiet".to_string())).unwrap();
    assert_eq!(p.actions, vec![PolkitAction::SetProfile]);
    assert!(matches!(
        conclude(p.intent, true),
        Ok(Transition::SetProfile(ProfileName::PowerSaver))
    ));

    let p = pending(Request::SetCoolingLevel(" Silent ".to_string())).unwrap();
    assert!(matches!(
        conclude(p.intent, true),
        Ok(Transition::SetCoolingLevel(FanCurvePreset::Silent))
    ));

    let p = pending(Request::SetFanCurve { cpu: eight_points(), gpu: eight_points() }).unwrap();
    assert!(matches!(
        conclude(p.intent, true),
        Ok(Transition::SetCustomFanCurve { .. })
    ));

    let p = pending(Request::RestoreDefaults).unwrap();
    assert_eq!(
        p.actions,
        vec![PolkitAction::SetTdp, PolkitAction::SetCharge, PolkitAction::SetProfile]
    );
    assert!(matches!(conclude(p.intent, true), Ok(Transition::RestoreDefaults)));

    let p = pending(Request::EnableGpuAutoFollow).unwrap();
    assert!(matches!(conclude(p.intent, true), Ok(Transition::EnableGpuAutoFollow)));
}

#[test]
fn nothing_happens_without_authorization() {
    let refusal = conclude(Intent::Make(Transition::RestoreDefaults), false).unwrap_err();
    assert!(matches!(&refusal, RequestError::AuthFailed(_)));
    assert_eq!(refusal.to_string(), "Not authorized by polkit");
    assert!(authorized(Some(true)));
    assert!(!authorized(Some(false)));
    assert!(!authorized(None));
}

#[test]
fn senseless_requests_are_turned_down() {
    for threshold in [19, 101] {
        let refusal = pending(Request::SetChargeThreshold(threshold)).unwrap_err();
        assert_eq!(refusal.to_string(), "Charge limit must be between 20 and 100");
    }
    for threshold in [20, 100] {
        assert!(pending(Request::SetChargeThreshold(threshold)).is_ok());
    }
    let refusal = pending(Request::SetCoolingLevel("Turbo".to_string())).unwrap_err();
    assert_eq!(
        refusal.to_string(),
        "State invariant violated: unknown fan curve preset 'turbo' \
         (expected silent|balanced|aggressive)"
    );
    let refusal = conclude(Intent::NamedPreset("Turbo".to_string()), true).unwrap_err();
    assert_eq!(
        refusal.to_string(),
        "unknown TDP preset 'turbo': use one of eco, balanced, max"
    );
    let refusal = conclude(Intent::NamedProfile(" ".to_string()), true).unwrap_err();
    assert_eq!(refusal.to_string(), "profile name cannot be empty");
}

#[test]
fn requests_need_the_capability() {
    let state = sample_state();
    let refusal = check(
        &state,
        &PowerOnlyBackend,
        Request::SetFanCurve { cpu: eight_points(), gpu: eight_points() },
    )
    .unwrap_err();
    assert_eq!(refusal.to_string(), "this device has no programmable fan curve");
    for request in [
        Request::SetGpuClockRange { min_mhz: 600, max_mhz: 700 },
        Request::EnableGpuAutoFollow,
    ] {
        let refusal = check(&state, &PowerOnlyBackend, request).unwrap_err();
        assert_eq!(refusal.to_string(), "this device has no programmable GPU clock range");
    }
}

#[test]
fn the_lock_turns_levers_down_and_nothing_else() {
    let mut state = sample_state();
    state.is_ac_connected = true;
    state.ac_locked = true;
    for request in [
        Request::SetSpl(20),
        Request::SetPreset("eco".to_string()),
        Request::SetProfile("balanced".to_string()),
        Request::SetCoolingLevel("silent".to_string()),
        Request::SetFanAuto,
        Request::ResetFanCurve,
        Request::SetFanCurve { cpu: vec![], gpu: vec![] },
        Request::SetGpuClockRange { min_mhz: 1, max_mhz: 2 },
        Request::EnableGpuAutoFollow,
        Request::ResetGpuClocks,
        Request::RestoreDefaults,
    ] {
        let refusal = check(&state, &TelemetryFixture, request).unwrap_err();
        assert!(matches!(&refusal, RequestError::Failed(_)));
        assert!(refusal.to_string().starts_with("Locked: on AC power"));
    }
    assert!(check(&state, &TelemetryFixture, Request::SetChargeThreshold(60)).is_ok());
    assert!(check(&state, &TelemetryFixture, Request::SetAcMaxPerformance(false)).is_ok());
}

#[test]
fn properties_report_the_state() {
    let mut state = sample_state();
    state.power_target.spl = PowerMilliwatts(15_999);
    assert_eq!(current_spl(&state), 15);
    assert_eq!(active_profile(&state), "balanced");
    assert_eq!(fan_curve(&state), "auto");
    state.active_fan_curve = Some(FanCurveSelection::Preset(FanCurvePreset::Silent));
    assert_eq!(fan_curve(&state), "silent");
    assert_eq!(get_hardware_limits(&sample_limits()), (7, 35, 43, 53));
    assert_eq!(
        executor_down().to_string(),
        "Internal daemon error: Executor down"
    );
}

#[test]
fn changes_are_announced_in_order() {
    let last = sample_state();
    assert!(changed_properties(&last, &last).is_empty());
    let mut new = last.clone();
    new.ac_locked = true;
    new.power_target.spl = PowerMilliwatts(20_000);
    new.active_profile = ProfileName::Performance;
    new.power_target.sppt = PowerMilliwatts(30_000);
    assert_eq!(
        changed_properties(&last, &new),
        vec![Property::CurrentSpl, Property::ActiveProfile, Property::AcLocked]
    );
}

struct DrawnCurves;

impl PowerEnvelope for DrawnCurves {
    fn get_limits(&self) -> Result<PowerEnvelopeLimits, HpdError> {
        Ok(sample_limits())
    }

    fn get_target(&self) -> Result<PowerEnvelopeTarget, HpdError> {
        Ok(sample_state().power_target)
    }

    fn set_target(&self, _target: &PowerEnvelopeTarget) -> Result<(), HpdError> {
        Ok(())
    }
}

impl FanCurveControl for DrawnCurves {
    fn apply(&self, _selection: &FanCurveSelection) -> Result<(), HpdError> {
        Ok(())
    }

    fn reset_to_auto(&self) -> Result<(), HpdError> {
        Ok(())
    }

    fn get_curves(&self) -> Result<ActiveFanCurves, HpdError> {
        let cpu = parse_fan_curve(eight_points()).unwrap();
        let mut gpu = cpu;
        gpu.points[0] = FanCurvePoint::new(40, 10);
        Ok(ActiveFanCurves { cpu, gpu })
    }

    fn active_selection(&self) -> Result<Option<FanCurveSelection>, HpdError> {
        Ok(None)
    }

    fn constraints(&self) -> FanCurveConstraints {
        TelemetryFixture.fan_curve().unwrap().constraints()
    }
}

impl HwBackend for DrawnCurves {
    fn power(&self) -> PowerHandle<'_> {
        PowerHandle(self)
    }

    fn fan_curve(&self) -> Option<&dyn FanCurveControl> {
        Some(self)
    }
}

#[test]
fn curves_are_drawn_point_by_point() {
    let (cpu, gpu) = get_fan_curve(&DrawnCurves);
    assert_eq!(cpu.len(), 8);
    assert_eq!(cpu[0], (45, 20));
    assert_eq!(gpu[0], (40, 10));
    assert_eq!(gpu[7], (92, 200));
    assert_eq!(get_fan_curve(&TelemetryFixture), (vec![], vec![]));
    assert_eq!(get_fan_curve(&PowerOnlyBackend), (vec![], vec![]));
}

#[test]
fn unregistered_actions_are_missed() {
    assert!(missing_actions(&vec![
        "dev.cirodev.hpd.set-fan-curve".to_string(),
        "dev.cirodev.hpd.set-tdp".to_string(),
        "org.example.other".to_string(),
        "dev.cirodev.hpd.set-charge".to_string(),
        "dev.cirodev.hpd.set-profile".to_string(),
    ])
    .is_empty());
    let missing = missing_actions(&vec!["dev.cirodev.hpd.set-charge".to_string()]);
    assert_eq!(
        missing,
        vec![
            "dev.cirodev.hpd.set-tdp",
            "dev.cirodev.hpd.set-profile",
            "dev.cirodev.hpd.set-fan-curve"
        ]
    );
    assert!(policy_is_missing("Action dev.cirodev.hpd.set-tdp is not registered"));
    assert!(!policy_is_missing("timeout"));
}

#[test]
fn diagnostics_raise_no_false_alarm() {
    assert_eq!(diagnostics(None), (true, vec![]));
    assert_eq!(diagnostics(Some(vec![])), (true, vec![]));
    assert_eq!(
        diagnostics(Some(vec!["x".to_string()])),
        (false, vec!["x".to_string()])
    );
}
