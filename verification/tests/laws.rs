use hpd::asus::fan_curve::{preset_curves, resolve};
use hpd::asus::profile::{parse_profile, resolve_target_string};
use hpd::effect::Effect;
use hpd::error::HpdError;
use hpd::fan_curve::{FanCurvePreset, FanCurveSelection};
use hpd::gpu_clock::{GpuClockRange, GpuClockSelection};
use hpd::inference::infer_fan_curve_from_spl;
use hpd::invariants::validate_power_envelope;
use hpd::netlink::emit_if_changed;
use hpd::ppd_shim::PowerProfilesShim;
use hpd::power::{PowerEnvelopeLimits, PowerEnvelopeTarget};
use hpd::profile::{ProfileName, ProfileThresholds, RuntimeConfig, TdpPreset};
use hpd::reducer::{reduce, ReducerOutput};
use hpd::state::ProfileState;
use hpd::transition::Transition;
use hpd::units::PowerMilliwatts;

fn limits() -> PowerEnvelopeLimits {
    PowerEnvelopeLimits {
        spl_min: PowerMilliwatts(7_000),
        spl_max: PowerMilliwatts(35_000),
        sppt_min: PowerMilliwatts(13_000),
        sppt_max: PowerMilliwatts(43_000),
        fppt_min: PowerMilliwatts(19_000),
        fppt_max: PowerMilliwatts(53_000),
    }
}

fn on_battery() -> ProfileState {
    ProfileState {
        power_target: PowerEnvelopeTarget {
            spl: PowerMilliwatts(15_000),
            sppt: PowerMilliwatts(17_250),
            fppt: Some(PowerMilliwatts(19_000)),
        },
        active_profile: ProfileName::Balanced,
        charge_end_threshold: 80,
        fan_follows_tdp: false,
        last_dc_state: None,
        ac_max_performance: true,
        active_fan_curve: Some(FanCurveSelection::Preset(FanCurvePreset::Silent)),
        active_gpu_clock: Some(GpuClockSelection::Custom(GpuClockRange {
            min_mhz: 600,
            max_mhz: 1_000,
        })),
        gpu_follows_tdp: false,
        is_ac_connected: false,
        ac_locked: false,
    }
}

fn step(state: &ProfileState, transition: Transition) -> ReducerOutput {
    reduce(state, transition, &limits(), &RuntimeConfig::default()).expect("must be accepted")
}

/// A device that takes every effect, and may drop its fan curve at every switch
/// of the platform profile.
struct Hardware {
    target: PowerEnvelopeTarget,
    profile: ProfileName,
    charge: u8,
    curve: Option<FanCurveSelection>,
    clock: Option<GpuClockSelection>,
    forgetful: bool,
}

impl Hardware {
    fn in_line_with(state: &ProfileState, forgetful: bool) -> Self {
        Hardware {
            target: state.power_target,
            profile: state.active_profile.clone(),
            charge: state.charge_end_threshold,
            curve: state.active_fan_curve,
            clock: state.active_gpu_clock,
            forgetful,
        }
    }

    fn take(&mut self, effects: Vec<Effect>) {
        for effect in effects {
            match effect {
                Effect::ApplyPowerEnvelope(target) => self.target = target,
                Effect::ApplyPlatformProfile(profile) => {
                    self.profile = profile;
                    if self.forgetful {
                        self.curve = None;
                    }
                }
                Effect::ApplyChargeThreshold(charge) => self.charge = charge,
                Effect::ApplyFanCurve(selection) => self.curve = Some(selection),
                Effect::ResetFanCurve => self.curve = None,
                Effect::ApplyGpuClockRange(selection) => self.clock = Some(selection),
                Effect::ResetGpuClocks => self.clock = None,
                Effect::PersistState => {}
            }
        }
    }

    fn holds(&self, state: &ProfileState) -> bool {
        self.target == state.power_target
            && self.profile == state.active_profile
            && self.charge == state.charge_end_threshold
            && self.curve == state.active_fan_curve
            && self.clock == state.active_gpu_clock
    }
}

#[test]
fn the_hardware_stays_in_line_over_a_run() {
    for forgetful in [false, true] {
        let mut state = on_battery();
        let mut hardware = Hardware::in_line_with(&state, forgetful);
        for transition in [
            Transition::SetSpl(20),
            Transition::SetProfile(ProfileName::PowerSaver),
            Transition::EnableFanAuto,
            Transition::EnableGpuAutoFollow,
            Transition::SetPreset(TdpPreset::Eco),
            Transition::AcPowerChanged(true),
            Transition::SetSpl(10),
            Transition::SystemResumed,
            Transition::SetAcMaxPerformance(false),
            Transition::SetCoolingLevel(FanCurvePreset::Silent),
            Transition::AcPowerChanged(false),
            Transition::ChargeThresholdChanged(60),
            Transition::RestoreDefaults,
            Transition::SystemResumed,
            Transition::Shutdown,
        ] {
            let out = step(&state, transition);
            hardware.take(out.effects);
            state = out.new_state;
            assert!(hardware.holds(&state));
        }
    }
}

#[test]
fn a_curve_that_does_not_change_is_lost_with_the_profile() {
    let mut state = on_battery();
    state.active_fan_curve = Some(FanCurveSelection::Preset(FanCurvePreset::Aggressive));
    let mut hardware = Hardware::in_line_with(&state, true);
    for plugged in [true, false] {
        let out = step(&state, Transition::AcPowerChanged(plugged));
        hardware.take(out.effects);
        state = out.new_state;
    }
    assert_eq!(
        state.active_fan_curve,
        Some(FanCurveSelection::Preset(FanCurvePreset::Aggressive))
    );
    assert_eq!(hardware.curve, None);
}

#[test]
fn a_wake_up_programs_everything_anew() {
    let state = on_battery();
    let mut other = on_battery();
    other.power_target.spl = PowerMilliwatts(7_000);
    other.active_profile = ProfileName::Performance;
    other.charge_end_threshold = 100;
    other.active_fan_curve = None;
    other.active_gpu_clock = None;
    let mut hardware = Hardware::in_line_with(&other, true);
    let out = step(&state, Transition::SystemResumed);
    hardware.take(out.effects);
    assert!(hardware.holds(&out.new_state));
}

#[test]
fn plugging_in_and_out_restores_the_levers() {
    let before = on_battery();
    let on_ac = step(&before, Transition::AcPowerChanged(true)).new_state;
    assert_eq!(on_ac.active_profile, ProfileName::Performance);
    let ignored = step(&on_ac, Transition::SetSpl(10));
    assert!(ignored.effects.is_empty());
    assert_eq!(ignored.new_state, on_ac);
    let charged = step(&on_ac, Transition::ChargeThresholdChanged(60)).new_state;
    assert_eq!(charged.charge_end_threshold, 60);
    let after = step(&on_ac, Transition::AcPowerChanged(false)).new_state;
    assert_eq!(after, before);
}

#[test]
fn turning_the_lock_on_and_off_restores_the_levers() {
    let mut before = on_battery();
    before.is_ac_connected = true;
    before.ac_max_performance = false;
    let locked = step(&before, Transition::SetAcMaxPerformance(true)).new_state;
    assert_eq!(locked.power_target.spl, PowerMilliwatts(35_000));
    let after = step(&locked, Transition::SetAcMaxPerformance(false)).new_state;
    assert_eq!(after, before);
}

#[test]
fn without_the_lock_the_charger_moves_nothing() {
    let mut state = on_battery();
    state.ac_max_performance = false;
    let out = step(&state, Transition::AcPowerChanged(true));
    assert!(out.effects.is_empty());
    assert_eq!(out.new_state, ProfileState { is_ac_connected: true, ..state });
}

#[test]
fn restoring_defaults_twice_is_restoring_them_once() {
    let once = step(&on_battery(), Transition::RestoreDefaults).new_state;
    assert_eq!(once.power_target.spl, PowerMilliwatts(21_000));
    assert_eq!(once.active_fan_curve, None);
    assert_eq!(once.active_gpu_clock, None);
    let twice = step(&once, Transition::RestoreDefaults);
    assert!(twice.effects.is_empty());
    assert_eq!(twice.new_state, once);
}

#[test]
fn telling_what_the_hardware_holds_programs_nothing() {
    let real = PowerEnvelopeTarget {
        spl: PowerMilliwatts(9_000),
        sppt: PowerMilliwatts(13_000),
        fppt: None,
    };
    let out = step(&on_battery(), Transition::SyncPowerTarget(real));
    assert!(out.effects.is_empty());
    assert_eq!(out.new_state.power_target, real);
    let out = step(&on_battery(), Transition::SyncFanCurve(None));
    assert!(out.effects.is_empty());
    assert_eq!(out.new_state.active_fan_curve, None);
}

#[test]
fn every_whole_watt_in_range_is_accepted_with_ordered_rails() {
    for watts in 7..=35 {
        let target = step(&on_battery(), Transition::SetSpl(watts)).new_state.power_target;
        assert!(target.spl <= target.sppt);
        assert!(target.sppt <= target.fppt.unwrap());
        assert!(validate_power_envelope(&target, &limits()).is_ok());
    }
    for watts in [6, 36, u32::MAX] {
        assert!(matches!(
            reduce(
                &on_battery(),
                Transition::SetSpl(watts),
                &limits(),
                &RuntimeConfig::default()
            ),
            Err(HpdError::InvariantViolation(_))
        ));
    }
}

#[test]
fn cooling_never_falls_as_power_rises() {
    let strength = |watts: u32| {
        let target = PowerEnvelopeTarget {
            spl: PowerMilliwatts(watts * 1_000),
            sppt: PowerMilliwatts(0),
            fppt: None,
        };
        match infer_fan_curve_from_spl(&target, &limits(), &ProfileThresholds::default()) {
            FanCurvePreset::Silent => 0,
            FanCurvePreset::Balanced => 1,
            FanCurvePreset::Aggressive => 2,
        }
    };
    assert_eq!(strength(7), 0);
    assert_eq!(strength(21), 1);
    assert_eq!(strength(35), 2);
    for watts in 7..35 {
        assert!(strength(watts) <= strength(watts + 1));
    }
}

#[test]
fn the_gpu_clock_is_left_alone_until_asked_for() {
    let mut state = on_battery();
    state.active_gpu_clock = None;
    for transition in [
        Transition::AcPowerChanged(true),
        Transition::SetSpl(20),
        Transition::SystemResumed,
        Transition::RestoreDefaults,
    ] {
        let out = step(&state, transition);
        assert_eq!(out.new_state.active_gpu_clock, None);
        assert!(!out
            .effects
            .iter()
            .any(|e| matches!(e, Effect::ApplyGpuClockRange(_) | Effect::ResetGpuClocks)));
    }
}

#[test]
fn the_named_curves_pass_their_own_rules() {
    for preset in [
        FanCurvePreset::Silent,
        FanCurvePreset::Balanced,
        FanCurvePreset::Aggressive,
    ] {
        let (cpu, gpu) = preset_curves(preset);
        assert!(cpu.validate().is_ok());
        assert!(gpu.validate().is_ok());
        assert!(resolve(&FanCurveSelection::Preset(preset)).is_ok());
    }
}

#[test]
fn firmware_words_come_back() {
    let choices: Vec<String> = ["quiet", "balanced", "performance"]
        .iter()
        .map(|w| w.to_string())
        .collect();
    for profile in [
        ProfileName::PowerSaver,
        ProfileName::Balanced,
        ProfileName::Performance,
    ] {
        assert_eq!(parse_profile(&resolve_target_string(&profile, &choices)), profile);
    }
}

#[test]
fn charger_edges_alternate() {
    let mut last = Some(false);
    let mut told = Vec::new();
    for found in [Some(false), Some(true), None, Some(true), Some(false)] {
        if let Some(Transition::AcPowerChanged(plugged)) = emit_if_changed(&mut last, found) {
            told.push(plugged);
        }
    }
    assert_eq!(told, vec![true, false]);
}

#[test]
fn a_hold_yields_to_ac() {
    let mut shim = PowerProfilesShim::new();
    let mut state = on_battery();
    state.is_ac_connected = true;
    let (cookie, transition) = shim
        .hold_profile(
            "power-saver",
            "quiet".to_string(),
            "app".to_string(),
            Some(":1.7".to_string()),
            &state.active_profile,
        )
        .unwrap();
    assert_eq!(cookie, 1);
    let out = step(&state, transition);
    assert!(out.effects.is_empty());
    assert_eq!(out.new_state, state);
}
