use hpd::charge::DEFAULT_CHARGE_THRESHOLD;
use hpd::effect::Effect;
use hpd::error::HpdError;
use hpd::fan_curve::{FanCurve, FanCurvePoint, FanCurvePreset, FanCurveSelection};
use hpd::gpu_clock::{GpuClockRange, GpuClockSelection};
use hpd::power::{PowerEnvelopeLimits, PowerEnvelopeTarget};
use hpd::profile::{ProfileName, RuntimeConfig, TdpPreset};
use hpd::reducer::reduce;
use hpd::state::{DcSnapshot, ProfileState};
use hpd::transition::Transition;
use hpd::units::PowerMilliwatts;

fn setup_state() -> ProfileState {
    ProfileState {
        power_target: PowerEnvelopeTarget {
            spl: PowerMilliwatts(15000),
            sppt: PowerMilliwatts(15000),
            fppt: Some(PowerMilliwatts(15000)),
        },
        active_profile: ProfileName::Balanced,
        is_ac_connected: false,
        charge_end_threshold: DEFAULT_CHARGE_THRESHOLD,
        fan_follows_tdp: true,
        last_dc_state: None,
        active_fan_curve: None,
        active_gpu_clock: None,
        gpu_follows_tdp: false,
        ac_max_performance: true,
        ac_locked: false,
    }
}

#[test]
fn test_invariant_fppt_sppt_spl() {
    let state = setup_state();
    let limits = PowerEnvelopeLimits {
        spl_min: PowerMilliwatts(7000),
        spl_max: PowerMilliwatts(35000),
        sppt_min: PowerMilliwatts(7000),
        sppt_max: PowerMilliwatts(43000),
        fppt_min: PowerMilliwatts(7000),
        fppt_max: PowerMilliwatts(53000),
    };
    let config = RuntimeConfig::default();

    let bad_target = PowerEnvelopeTarget {
        spl: PowerMilliwatts(20000),
        sppt: PowerMilliwatts(15000),
        fppt: Some(PowerMilliwatts(25000)),
    };

    let result = reduce(
        &state,
        Transition::SetEnvelope(bad_target),
        &limits,
        &config,
    );

    assert!(result.is_err(), "Must fail because SPPT < SPL");
}

#[test]
fn test_fan_curve_inference_follows_tdp() {
    let state = setup_state();
    let limits = PowerEnvelopeLimits {
        spl_min: PowerMilliwatts(7000),
        spl_max: PowerMilliwatts(35000),
        sppt_min: PowerMilliwatts(7000),
        sppt_max: PowerMilliwatts(43000),
        fppt_min: PowerMilliwatts(7000),
        fppt_max: PowerMilliwatts(53000),
    };
    let config = RuntimeConfig::default();

    let high_target = PowerEnvelopeTarget {
        spl: PowerMilliwatts(30000),
        sppt: PowerMilliwatts(30000),
        fppt: Some(PowerMilliwatts(30000)),
    };

    let output = reduce(
        &state,
        Transition::SetEnvelope(high_target),
        &limits,
        &config,
    )
    .unwrap();

    let aggressive = FanCurveSelection::Preset(FanCurvePreset::Aggressive);
    assert_eq!(output.new_state.active_fan_curve, Some(aggressive));
    assert!(output.effects.contains(&Effect::ApplyFanCurve(aggressive)));
    assert_eq!(output.new_state.active_profile, state.active_profile);
    assert!(!output
        .effects
        .iter()
        .any(|e| matches!(e, Effect::ApplyPlatformProfile(_))));
}

#[test]
fn test_set_spl_overflow_rejected() {
    let state = setup_state();
    let limits = PowerEnvelopeLimits {
        spl_min: PowerMilliwatts(7000),
        spl_max: PowerMilliwatts(35000),
        sppt_min: PowerMilliwatts(7000),
        sppt_max: PowerMilliwatts(43000),
        fppt_min: PowerMilliwatts(7000),
        fppt_max: PowerMilliwatts(55000),
    };
    let config = RuntimeConfig::default();

    let result = reduce(&state, Transition::SetSpl(u32::MAX), &limits, &config);

    assert!(
        matches!(result, Err(HpdError::InvariantViolation(_))),
        "u32::MAX watts must be rejected as overflow, got {:?}",
        result.err()
    );
}

#[test]
fn test_ac_plugged_persists_dc_snapshot_even_when_envelope_unchanged() {
    let limits = PowerEnvelopeLimits {
        spl_min: PowerMilliwatts(7000),
        spl_max: PowerMilliwatts(35000),
        sppt_min: PowerMilliwatts(7000),
        sppt_max: PowerMilliwatts(43000),
        fppt_min: PowerMilliwatts(7000),
        fppt_max: PowerMilliwatts(55000),
    };
    let config = RuntimeConfig::default();

    let max_target = PowerEnvelopeTarget {
        spl: PowerMilliwatts(35_000),
        sppt: PowerMilliwatts(40_250),
        fppt: Some(PowerMilliwatts(43_750)),
    };
    let state = ProfileState {
        power_target: max_target.clone(),
        active_profile: ProfileName::Performance,
        is_ac_connected: false,
        charge_end_threshold: 80,
        fan_follows_tdp: true,
        last_dc_state: None,
        active_fan_curve: None,
        active_gpu_clock: None,
        gpu_follows_tdp: false,
        ac_max_performance: true,
        ac_locked: false,
    };

    let output = reduce(&state, Transition::AcPowerChanged(true), &limits, &config)
        .expect("AcPowerChanged should succeed");

    assert!(
        output
            .effects
            .iter()
            .any(|e| matches!(e, Effect::PersistState)),
        "AcPowerChanged must emit PersistState even when the envelope is unchanged; got effects={:?}",
        output.effects
    );
    assert_eq!(
        output.new_state.last_dc_state,
        Some(DcSnapshot {
            power_target: max_target,
            active_profile: ProfileName::Performance,
            active_fan_curve: None,
            fan_follows_tdp: true,
            active_gpu_clock: None,
            gpu_follows_tdp: false,
        })
    );
    assert!(output.new_state.is_ac_connected);
}

fn setup_limits() -> PowerEnvelopeLimits {
    PowerEnvelopeLimits {
        spl_min: PowerMilliwatts(7000),
        spl_max: PowerMilliwatts(35000),
        sppt_min: PowerMilliwatts(7000),
        sppt_max: PowerMilliwatts(43000),
        fppt_min: PowerMilliwatts(7000),
        fppt_max: PowerMilliwatts(55000),
    }
}

fn setup_config() -> RuntimeConfig {
    RuntimeConfig::default()
}

#[test]
fn test_ac_changed_is_debounced_when_already_in_same_state() {
    let state = setup_state();
    let out = reduce(
        &state,
        Transition::AcPowerChanged(false),
        &setup_limits(),
        &setup_config(),
    )
    .unwrap();
    assert!(
        out.effects.is_empty(),
        "expected no effects, got {:?}",
        out.effects
    );
    assert_eq!(out.new_state, state);
}

#[test]
fn test_ac_plugged_forces_max_performance_and_snapshots_dc() {
    let state = setup_state();
    let out = reduce(
        &state,
        Transition::AcPowerChanged(true),
        &setup_limits(),
        &setup_config(),
    )
    .unwrap();

    assert!(out.new_state.is_ac_connected);
    assert_eq!(
        out.new_state.last_dc_state,
        Some(DcSnapshot {
            power_target: state.power_target.clone(),
            active_profile: ProfileName::Balanced,
            active_fan_curve: None,
            fan_follows_tdp: true,
            active_gpu_clock: None,
            gpu_follows_tdp: false,
        })
    );
    assert_eq!(out.new_state.power_target.spl, PowerMilliwatts(35_000));
    assert_eq!(out.new_state.active_profile, ProfileName::Performance);
    assert_eq!(
        out.new_state.active_fan_curve,
        Some(FanCurveSelection::Preset(FanCurvePreset::Aggressive))
    );
    assert!(!out.new_state.fan_follows_tdp);
    assert!(out
        .effects
        .iter()
        .any(|e| matches!(e, Effect::ApplyPowerEnvelope(_))));
    assert!(out
        .effects
        .contains(&Effect::ApplyPlatformProfile(ProfileName::Performance)));
    assert!(out
        .effects
        .contains(&Effect::ApplyFanCurve(FanCurveSelection::Preset(
            FanCurvePreset::Aggressive
        ))));
    assert!(out.effects.contains(&Effect::PersistState));
}

#[test]
fn test_ac_plugged_with_lock_off_is_fully_manual() {
    let mut state = setup_state();
    state.ac_max_performance = false;
    let before = state.clone();

    let out = reduce(
        &state,
        Transition::AcPowerChanged(true),
        &setup_limits(),
        &setup_config(),
    )
    .unwrap();

    assert!(out.new_state.is_ac_connected);
    assert_eq!(out.new_state.power_target, before.power_target);
    assert_eq!(out.new_state.active_profile, before.active_profile);
    assert_eq!(out.new_state.active_fan_curve, before.active_fan_curve);
    assert!(out.new_state.last_dc_state.is_none());
    assert!(
        out.effects.is_empty(),
        "lock-off plug must produce no effects, got {:?}",
        out.effects
    );
}

#[test]
fn test_ac_unplugged_restores_full_dc_snapshot() {
    let saved = DcSnapshot {
        power_target: PowerEnvelopeTarget {
            spl: PowerMilliwatts(10_000),
            sppt: PowerMilliwatts(12_000),
            fppt: Some(PowerMilliwatts(14_000)),
        },
        active_profile: ProfileName::PowerSaver,
        active_fan_curve: Some(FanCurveSelection::Preset(FanCurvePreset::Silent)),
        fan_follows_tdp: false,
        active_gpu_clock: None,
        gpu_follows_tdp: false,
    };
    let mut state = setup_state();
    state.is_ac_connected = true;
    state.power_target = PowerEnvelopeTarget {
        spl: PowerMilliwatts(35_000),
        sppt: PowerMilliwatts(40_250),
        fppt: Some(PowerMilliwatts(43_750)),
    };
    state.active_profile = ProfileName::Performance;
    state.active_fan_curve = Some(FanCurveSelection::Preset(FanCurvePreset::Aggressive));
    state.fan_follows_tdp = false;
    state.last_dc_state = Some(saved.clone());

    let out = reduce(
        &state,
        Transition::AcPowerChanged(false),
        &setup_limits(),
        &setup_config(),
    )
    .unwrap();

    assert!(!out.new_state.is_ac_connected);
    assert_eq!(out.new_state.power_target, saved.power_target);
    assert_eq!(out.new_state.active_profile, ProfileName::PowerSaver);
    assert_eq!(out.new_state.active_fan_curve, saved.active_fan_curve);
    assert!(!out.new_state.fan_follows_tdp);
    assert!(out.effects.contains(&Effect::PersistState));
}

#[test]
fn test_ac_unplugged_without_snapshot_resets_to_quiet_defaults() {
    let mut state = setup_state();
    state.is_ac_connected = true;
    state.last_dc_state = None;
    state.power_target = PowerEnvelopeTarget {
        spl: PowerMilliwatts(35_000),
        sppt: PowerMilliwatts(40_250),
        fppt: Some(PowerMilliwatts(43_750)),
    };
    state.active_profile = ProfileName::Performance;
    state.active_fan_curve = Some(FanCurveSelection::Preset(FanCurvePreset::Aggressive));
    state.fan_follows_tdp = false;

    let out = reduce(
        &state,
        Transition::AcPowerChanged(false),
        &setup_limits(),
        &setup_config(),
    )
    .unwrap();

    assert!(!out.new_state.is_ac_connected);
    assert_eq!(out.new_state.power_target.spl, PowerMilliwatts(21_000));
    assert!(
        out.new_state.fan_follows_tdp,
        "auto-cooling must re-engage on the no-snapshot unplug"
    );
    assert_eq!(
        out.new_state.active_fan_curve,
        Some(FanCurveSelection::Preset(FanCurvePreset::Balanced)),
        "the forced Aggressive curve must drop to match the lower TDP"
    );
}

#[test]
fn test_system_resumed_reapplies_envelope_profile_and_threshold() {
    let state = setup_state();
    let out = reduce(
        &state,
        Transition::SystemResumed,
        &setup_limits(),
        &setup_config(),
    )
    .unwrap();
    assert_eq!(out.new_state, state);
    assert_eq!(out.effects.len(), 3);
    assert!(out
        .effects
        .contains(&Effect::ApplyPowerEnvelope(state.power_target.clone())));
    assert!(out
        .effects
        .contains(&Effect::ApplyPlatformProfile(state.active_profile.clone())));
    assert!(out
        .effects
        .contains(&Effect::ApplyChargeThreshold(state.charge_end_threshold)));
}

#[test]
fn test_system_resumed_reasserts_all_four_unconditionally_in_order() {
    let mut state = setup_state();
    let sel = FanCurveSelection::Preset(FanCurvePreset::Balanced);
    state.active_fan_curve = Some(sel);
    let out = reduce(
        &state,
        Transition::SystemResumed,
        &setup_limits(),
        &setup_config(),
    )
    .unwrap();
    assert_eq!(out.new_state, state, "SystemResumed must not mutate state");
    assert!(out
        .effects
        .contains(&Effect::ApplyPowerEnvelope(state.power_target.clone())));
    assert!(out
        .effects
        .contains(&Effect::ApplyPlatformProfile(state.active_profile.clone())));
    assert!(out
        .effects
        .contains(&Effect::ApplyChargeThreshold(state.charge_end_threshold)));
    assert!(out.effects.contains(&Effect::ApplyFanCurve(sel)));
    let prof = out
        .effects
        .iter()
        .position(|e| matches!(e, Effect::ApplyPlatformProfile(_)))
        .unwrap();
    let curve = out
        .effects
        .iter()
        .position(|e| matches!(e, Effect::ApplyFanCurve(_)))
        .unwrap();
    assert!(
        curve > prof,
        "fan curve must be re-applied after the platform profile"
    );
}

#[test]
fn test_enable_fan_auto_infers_and_applies_curve_and_persists() {
    let mut state = setup_state();
    state.fan_follows_tdp = false;
    let out = reduce(
        &state,
        Transition::EnableFanAuto,
        &setup_limits(),
        &setup_config(),
    )
    .unwrap();
    assert!(out.new_state.fan_follows_tdp);
    let silent = FanCurveSelection::Preset(FanCurvePreset::Silent);
    assert_eq!(out.new_state.active_fan_curve, Some(silent));
    assert!(out.effects.contains(&Effect::ApplyFanCurve(silent)));
    assert!(out.effects.contains(&Effect::PersistState));
}

#[test]
fn test_enable_fan_auto_is_no_op_when_already_enabled() {
    let state = setup_state();
    let out = reduce(
        &state,
        Transition::EnableFanAuto,
        &setup_limits(),
        &setup_config(),
    )
    .unwrap();
    assert_eq!(out.new_state, state);
    assert!(out.effects.is_empty());
}

#[test]
fn test_charge_threshold_changed_applies_and_persists() {
    let state = setup_state();
    let out = reduce(
        &state,
        Transition::ChargeThresholdChanged(60),
        &setup_limits(),
        &setup_config(),
    )
    .unwrap();
    assert_eq!(out.new_state.charge_end_threshold, 60);
    assert_eq!(
        out.effects,
        vec![Effect::ApplyChargeThreshold(60), Effect::PersistState]
    );
}

#[test]
fn test_charge_threshold_changed_is_no_op_when_unchanged() {
    let state = setup_state();
    let out = reduce(
        &state,
        Transition::ChargeThresholdChanged(80),
        &setup_limits(),
        &setup_config(),
    )
    .unwrap();
    assert_eq!(out.new_state, state);
    assert!(out.effects.is_empty());
}

#[test]
fn test_set_spl_just_below_min_is_rejected() {
    let state = setup_state();
    let result = reduce(
        &state,
        Transition::SetSpl(6),
        &setup_limits(),
        &setup_config(),
    );
    assert!(matches!(result, Err(HpdError::InvariantViolation(_))));
}

#[test]
fn test_set_spl_just_above_max_is_rejected() {
    let state = setup_state();
    let result = reduce(
        &state,
        Transition::SetSpl(36),
        &setup_limits(),
        &setup_config(),
    );
    assert!(matches!(result, Err(HpdError::InvariantViolation(_))));
}

#[test]
fn test_set_spl_at_min_boundary_is_accepted() {
    let state = setup_state();
    let out = reduce(
        &state,
        Transition::SetSpl(7),
        &setup_limits(),
        &setup_config(),
    )
    .unwrap();
    assert_eq!(out.new_state.power_target.spl, PowerMilliwatts(7_000));
}

#[test]
fn test_set_spl_at_max_boundary_is_accepted() {
    let state = setup_state();
    let out = reduce(
        &state,
        Transition::SetSpl(35),
        &setup_limits(),
        &setup_config(),
    )
    .unwrap();
    assert_eq!(out.new_state.power_target.spl, PowerMilliwatts(35_000));
}

#[test]
fn test_set_spl_near_hw_ceiling_floors_sppt_fppt_at_spl() {
    let state = setup_state();
    let tight_limits = PowerEnvelopeLimits {
        spl_min: PowerMilliwatts(7_000),
        spl_max: PowerMilliwatts(35_000),
        sppt_min: PowerMilliwatts(7_000),
        sppt_max: PowerMilliwatts(35_000),
        fppt_min: PowerMilliwatts(7_000),
        fppt_max: PowerMilliwatts(35_000),
    };
    let out = reduce(
        &state,
        Transition::SetSpl(35),
        &tight_limits,
        &setup_config(),
    )
    .expect("floored envelope must satisfy FPPT >= SPPT >= SPL, not be rejected");
    assert_eq!(out.new_state.power_target.spl, PowerMilliwatts(35_000));
    assert_eq!(out.new_state.power_target.sppt, PowerMilliwatts(35_000));
    assert_eq!(
        out.new_state.power_target.fppt,
        Some(PowerMilliwatts(35_000))
    );
}

#[test]
fn test_set_spl_at_low_end_floors_sppt_fppt_at_hardware_minimum() {
    let state = setup_state();
    let rc73xa_limits = PowerEnvelopeLimits {
        spl_min: PowerMilliwatts(7_000),
        spl_max: PowerMilliwatts(35_000),
        sppt_min: PowerMilliwatts(13_000),
        sppt_max: PowerMilliwatts(45_000),
        fppt_min: PowerMilliwatts(19_000),
        fppt_max: PowerMilliwatts(55_000),
    };
    let out = reduce(
        &state,
        Transition::SetSpl(7),
        &rc73xa_limits,
        &setup_config(),
    )
    .expect("a low SPL must not be rejected because of the boost-rail hardware floor");
    assert_eq!(out.new_state.power_target.spl, PowerMilliwatts(7_000));
    assert!(
        out.new_state.power_target.sppt.0 >= rc73xa_limits.sppt_min.0,
        "SPPT ({}) must be at least the hardware minimum ({})",
        out.new_state.power_target.sppt.0,
        rc73xa_limits.sppt_min.0
    );
    let fppt = out.new_state.power_target.fppt.expect("fppt must be set");
    assert!(
        fppt.0 >= rc73xa_limits.fppt_min.0,
        "FPPT ({}) must be at least the hardware minimum ({})",
        fppt.0,
        rc73xa_limits.fppt_min.0
    );
}

#[test]
fn test_set_envelope_rejects_fppt_below_sppt() {
    let state = setup_state();
    let bad = PowerEnvelopeTarget {
        spl: PowerMilliwatts(15_000),
        sppt: PowerMilliwatts(20_000),
        fppt: Some(PowerMilliwatts(18_000)),
    };
    let result = reduce(
        &state,
        Transition::SetEnvelope(bad),
        &setup_limits(),
        &setup_config(),
    );
    assert!(matches!(result, Err(HpdError::InvariantViolation(_))));
}

#[test]
fn test_set_envelope_rejects_spl_out_of_hardware_range() {
    let state = setup_state();
    let bad = PowerEnvelopeTarget {
        spl: PowerMilliwatts(3_000),
        sppt: PowerMilliwatts(10_000),
        fppt: Some(PowerMilliwatts(12_000)),
    };
    let result = reduce(
        &state,
        Transition::SetEnvelope(bad),
        &setup_limits(),
        &setup_config(),
    );
    assert!(matches!(result, Err(HpdError::InvariantViolation(_))));
}

#[test]
fn test_set_envelope_rejects_sppt_below_hardware_minimum() {
    let state = setup_state();
    let rc73xa_limits = PowerEnvelopeLimits {
        spl_min: PowerMilliwatts(7_000),
        spl_max: PowerMilliwatts(35_000),
        sppt_min: PowerMilliwatts(13_000),
        sppt_max: PowerMilliwatts(45_000),
        fppt_min: PowerMilliwatts(19_000),
        fppt_max: PowerMilliwatts(55_000),
    };
    let bad = PowerEnvelopeTarget {
        spl: PowerMilliwatts(7_000),
        sppt: PowerMilliwatts(8_000),
        fppt: Some(PowerMilliwatts(20_000)),
    };
    let result = reduce(
        &state,
        Transition::SetEnvelope(bad),
        &rc73xa_limits,
        &setup_config(),
    );
    assert!(matches!(result, Err(HpdError::InvariantViolation(_))));
}

#[test]
fn test_set_envelope_rejects_fppt_below_hardware_minimum() {
    let state = setup_state();
    let rc73xa_limits = PowerEnvelopeLimits {
        spl_min: PowerMilliwatts(7_000),
        spl_max: PowerMilliwatts(35_000),
        sppt_min: PowerMilliwatts(13_000),
        sppt_max: PowerMilliwatts(45_000),
        fppt_min: PowerMilliwatts(19_000),
        fppt_max: PowerMilliwatts(55_000),
    };
    let bad = PowerEnvelopeTarget {
        spl: PowerMilliwatts(7_000),
        sppt: PowerMilliwatts(13_000),
        fppt: Some(PowerMilliwatts(15_000)),
    };
    let result = reduce(
        &state,
        Transition::SetEnvelope(bad),
        &rc73xa_limits,
        &setup_config(),
    );
    assert!(matches!(result, Err(HpdError::InvariantViolation(_))));
}

#[test]
fn test_sync_power_target_overwrites_state_without_side_effects() {
    let state = setup_state();
    let real = PowerEnvelopeTarget {
        spl: PowerMilliwatts(12_000),
        sppt: PowerMilliwatts(13_800),
        fppt: Some(PowerMilliwatts(15_000)),
    };
    let out = reduce(
        &state,
        Transition::SyncPowerTarget(real.clone()),
        &setup_limits(),
        &setup_config(),
    )
    .unwrap();
    assert_eq!(out.new_state.power_target, real);
    assert!(
        out.effects.is_empty(),
        "rollback must not produce effects, got {:?}",
        out.effects
    );
}

#[test]
fn test_sync_platform_profile_overwrites_state_without_side_effects() {
    let mut state = setup_state();
    state.active_profile = ProfileName::Performance;
    let out = reduce(
        &state,
        Transition::SyncPlatformProfile(ProfileName::PowerSaver),
        &setup_limits(),
        &setup_config(),
    )
    .unwrap();
    assert_eq!(out.new_state.active_profile, ProfileName::PowerSaver);
    assert!(
        out.effects.is_empty(),
        "rollback must not produce effects, got {:?}",
        out.effects
    );
}

#[test]
fn test_sync_charge_threshold_overwrites_state_without_side_effects() {
    let state = setup_state();
    assert_ne!(state.charge_end_threshold, 65);
    let out = reduce(
        &state,
        Transition::SyncChargeThreshold(65),
        &setup_limits(),
        &setup_config(),
    )
    .unwrap();
    assert_eq!(out.new_state.charge_end_threshold, 65);
    assert!(
        out.effects.is_empty(),
        "rollback must not produce effects, got {:?}",
        out.effects
    );
}

#[test]
fn test_shutdown_emits_only_persist_state_and_leaves_state_untouched() {
    let state = setup_state();
    let out = reduce(
        &state,
        Transition::Shutdown,
        &setup_limits(),
        &setup_config(),
    )
    .unwrap();
    assert_eq!(
        out.new_state, state,
        "Shutdown must not mutate ProfileState"
    );
    assert_eq!(out.effects, vec![Effect::PersistState]);
}

#[test]
fn test_reset_fan_curve_clears_and_emits_reset() {
    let mut state = setup_state();
    state.active_fan_curve = Some(FanCurveSelection::Preset(FanCurvePreset::Silent));
    let out = reduce(
        &state,
        Transition::ResetFanCurve,
        &setup_limits(),
        &setup_config(),
    )
    .unwrap();
    assert_eq!(out.new_state.active_fan_curve, None);
    assert!(
        !out.new_state.fan_follows_tdp,
        "reset must also disengage auto-follow, or the next TDP change \
         silently re-infers and re-applies a curve, undoing the reset"
    );
    assert_eq!(
        out.effects,
        vec![Effect::ResetFanCurve, Effect::PersistState]
    );
}

#[test]
fn test_reset_fan_curve_is_no_op_when_already_fully_auto() {
    let mut state = setup_state();
    state.fan_follows_tdp = false;
    let out = reduce(
        &state,
        Transition::ResetFanCurve,
        &setup_limits(),
        &setup_config(),
    )
    .unwrap();
    assert_eq!(out.new_state, state);
    assert!(out.effects.is_empty());
}

#[test]
fn test_reset_fan_curve_disengages_auto_follow_even_without_an_active_curve() {
    let state = setup_state();
    let out = reduce(
        &state,
        Transition::ResetFanCurve,
        &setup_limits(),
        &setup_config(),
    )
    .unwrap();
    assert!(!out.new_state.fan_follows_tdp);
    assert_eq!(out.new_state.active_fan_curve, None);
    assert_eq!(
        out.effects,
        vec![Effect::ResetFanCurve, Effect::PersistState],
        "must actually write the reset to hardware and persist, not no-op"
    );
}

#[test]
fn test_system_resumed_reapplies_fan_curve_when_managed() {
    let sel = FanCurveSelection::Preset(FanCurvePreset::Balanced);
    let mut state = setup_state();
    state.active_fan_curve = Some(sel);
    let out = reduce(
        &state,
        Transition::SystemResumed,
        &setup_limits(),
        &setup_config(),
    )
    .unwrap();
    assert_eq!(out.new_state, state);
    assert_eq!(out.effects.len(), 4);
    assert!(out.effects.contains(&Effect::ApplyFanCurve(sel)));
}

#[test]
fn test_set_profile_is_decoupled_from_fan_curve() {
    let state = setup_state();
    let config = setup_config();

    let out = reduce(
        &state,
        Transition::SetProfile(ProfileName::Performance),
        &setup_limits(),
        &config,
    )
    .unwrap();

    assert_eq!(out.new_state.active_profile, ProfileName::Performance);
    assert_eq!(
        out.new_state.active_fan_curve, None,
        "SetProfile must not touch the fan curve"
    );
    assert_eq!(
        out.new_state.fan_follows_tdp, state.fan_follows_tdp,
        "SetProfile must not flip auto-cooling"
    );
    assert!(!out
        .effects
        .iter()
        .any(|e| matches!(e, Effect::ApplyFanCurve(_))));
}

#[test]
fn test_set_cooling_level_sets_fan_curve_only() {
    let mut state = setup_state();
    state.fan_follows_tdp = true;
    let out = reduce(
        &state,
        Transition::SetCoolingLevel(FanCurvePreset::Aggressive),
        &setup_limits(),
        &setup_config(),
    )
    .unwrap();
    assert_eq!(
        out.new_state.active_fan_curve,
        Some(FanCurveSelection::Preset(FanCurvePreset::Aggressive))
    );
    assert!(!out.new_state.fan_follows_tdp);
    assert!(out
        .effects
        .contains(&Effect::ApplyFanCurve(FanCurveSelection::Preset(
            FanCurvePreset::Aggressive
        ))));
    assert_eq!(out.new_state.active_profile, ProfileName::Balanced);
    assert!(!out
        .effects
        .iter()
        .any(|e| matches!(e, Effect::ApplyPlatformProfile(_))));
}

fn sample_custom_curve() -> FanCurve {
    FanCurve::new([
        FanCurvePoint::new(45, 20),
        FanCurvePoint::new(54, 40),
        FanCurvePoint::new(62, 60),
        FanCurvePoint::new(69, 80),
        FanCurvePoint::new(75, 100),
        FanCurvePoint::new(80, 120),
        FanCurvePoint::new(85, 150),
        FanCurvePoint::new(92, 200),
    ])
}

#[test]
fn test_set_custom_fan_curve_sets_fan_curve_only() {
    let mut state = setup_state();
    state.fan_follows_tdp = true;
    let cpu = sample_custom_curve();
    let gpu = sample_custom_curve();
    let out = reduce(
        &state,
        Transition::SetCustomFanCurve { cpu, gpu },
        &setup_limits(),
        &setup_config(),
    )
    .unwrap();
    assert_eq!(
        out.new_state.active_fan_curve,
        Some(FanCurveSelection::Custom { cpu, gpu })
    );
    assert!(!out.new_state.fan_follows_tdp);
    assert!(out
        .effects
        .contains(&Effect::ApplyFanCurve(FanCurveSelection::Custom {
            cpu,
            gpu
        })));
    assert_eq!(out.new_state.active_profile, ProfileName::Balanced);
    assert!(!out
        .effects
        .iter()
        .any(|e| matches!(e, Effect::ApplyPlatformProfile(_))));
}

#[test]
fn test_profile_change_reasserts_active_curve() {
    let sel = FanCurveSelection::Preset(FanCurvePreset::Silent);
    let mut state = setup_state();
    state.active_fan_curve = Some(sel);
    let config = setup_config();
    let out = reduce(
        &state,
        Transition::SetProfile(ProfileName::Performance),
        &setup_limits(),
        &config,
    )
    .unwrap();
    assert_eq!(out.new_state.active_fan_curve, Some(sel));
    assert!(out.effects.contains(&Effect::ApplyFanCurve(sel)));
    let profile_idx = out
        .effects
        .iter()
        .position(|e| matches!(e, Effect::ApplyPlatformProfile(_)))
        .unwrap();
    let curve_idx = out
        .effects
        .iter()
        .position(|e| matches!(e, Effect::ApplyFanCurve(_)))
        .unwrap();
    assert!(
        curve_idx > profile_idx,
        "curve must be re-applied AFTER the profile"
    );
}

#[test]
fn test_config_reload_is_a_no_op_in_the_reducer() {
    let state = setup_state();
    let out = reduce(
        &state,
        Transition::ConfigReload(RuntimeConfig::default()),
        &setup_limits(),
        &setup_config(),
    )
    .unwrap();
    assert_eq!(out.new_state, state);
    assert!(out.effects.is_empty());
}

fn locked_on_ac_state() -> ProfileState {
    let mut s = setup_state();
    s.is_ac_connected = true;
    s.power_target = PowerEnvelopeTarget {
        spl: PowerMilliwatts(35_000),
        sppt: PowerMilliwatts(40_250),
        fppt: Some(PowerMilliwatts(43_750)),
    };
    s.active_profile = ProfileName::Performance;
    s.active_fan_curve = Some(FanCurveSelection::Preset(FanCurvePreset::Aggressive));
    s.fan_follows_tdp = false;
    s
}

#[test]
fn test_lock_ignores_power_and_cooling_writes_on_ac() {
    let state = locked_on_ac_state();
    let cfg = setup_config();
    let writes = [
        Transition::SetSpl(10),
        Transition::SetPreset(TdpPreset::Eco),
        Transition::SetEnvelope(PowerEnvelopeTarget {
            spl: PowerMilliwatts(8_000),
            sppt: PowerMilliwatts(9_000),
            fppt: Some(PowerMilliwatts(10_000)),
        }),
        Transition::SetProfile(ProfileName::PowerSaver),
        Transition::SetCoolingLevel(FanCurvePreset::Silent),
        Transition::SetCustomFanCurve {
            cpu: sample_custom_curve(),
            gpu: sample_custom_curve(),
        },
        Transition::EnableFanAuto,
        Transition::ResetFanCurve,
        Transition::SetGpuClockRange {
            min_mhz: 600,
            max_mhz: 1_800,
        },
        Transition::EnableGpuAutoFollow,
        Transition::ResetGpuClocks,
        Transition::RestoreDefaults,
    ];
    for t in writes {
        let label = format!("{t:?}");
        let out = reduce(&state, t, &setup_limits(), &cfg).unwrap();
        assert!(
            out.effects.is_empty(),
            "{label} must produce no effects while locked, got {:?}",
            out.effects
        );
        assert_eq!(
            out.new_state, state,
            "{label} must not mutate state while locked"
        );
    }
}

#[test]
fn test_lock_allows_charge_threshold_on_ac() {
    let state = locked_on_ac_state();
    let out = reduce(
        &state,
        Transition::ChargeThresholdChanged(70),
        &setup_limits(),
        &setup_config(),
    )
    .unwrap();
    assert_eq!(out.new_state.charge_end_threshold, 70);
    assert!(out.effects.contains(&Effect::ApplyChargeThreshold(70)));
}

#[test]
fn test_lock_inactive_when_preference_disabled() {
    let mut state = locked_on_ac_state();
    state.ac_max_performance = false;
    let out = reduce(
        &state,
        Transition::SetProfile(ProfileName::PowerSaver),
        &setup_limits(),
        &setup_config(),
    )
    .unwrap();
    assert_eq!(out.new_state.active_profile, ProfileName::PowerSaver);
    assert!(out
        .effects
        .contains(&Effect::ApplyPlatformProfile(ProfileName::PowerSaver)));
}

#[test]
fn test_system_resumed_on_ac_forces_max_and_charge() {
    let mut state = setup_state();
    state.is_ac_connected = true;
    state.charge_end_threshold = 75;

    let out = reduce(
        &state,
        Transition::SystemResumed,
        &setup_limits(),
        &setup_config(),
    )
    .unwrap();

    assert_eq!(out.new_state.power_target.spl, PowerMilliwatts(35_000));
    assert_eq!(out.new_state.active_profile, ProfileName::Performance);
    assert_eq!(
        out.new_state.active_fan_curve,
        Some(FanCurveSelection::Preset(FanCurvePreset::Aggressive))
    );
    assert!(out.effects.contains(&Effect::ApplyChargeThreshold(75)));
    assert!(out.effects.contains(&Effect::PersistState));
}

#[test]
fn test_cold_install_on_ac_then_first_unplug() {
    let limits = setup_limits();
    let config = setup_config();

    let mut cold = setup_state();
    cold.is_ac_connected = true;
    cold.last_dc_state = None;

    let booted = reduce(&cold, Transition::SystemResumed, &limits, &config)
        .unwrap()
        .new_state;
    assert_eq!(booted.power_target.spl, PowerMilliwatts(35_000));
    assert_eq!(booted.active_profile, ProfileName::Performance);
    assert_eq!(
        booted.active_fan_curve,
        Some(FanCurveSelection::Preset(FanCurvePreset::Aggressive))
    );
    assert!(booted.is_ac_connected);
    assert!(
        booted.last_dc_state.is_none(),
        "boot re-assert does not fabricate a DC snapshot"
    );

    let unplugged = reduce(&booted, Transition::AcPowerChanged(false), &limits, &config)
        .unwrap()
        .new_state;
    assert!(!unplugged.is_ac_connected);
    assert_eq!(unplugged.power_target.spl, PowerMilliwatts(21_000));
    assert!(unplugged.fan_follows_tdp);
    assert_eq!(
        unplugged.active_fan_curve,
        Some(FanCurveSelection::Preset(FanCurvePreset::Balanced))
    );
}

#[test]
fn test_system_resumed_on_battery_reapplies_persisted_state() {
    let mut state = setup_state();
    state.is_ac_connected = false;
    state.active_profile = ProfileName::Balanced;

    let out = reduce(
        &state,
        Transition::SystemResumed,
        &setup_limits(),
        &setup_config(),
    )
    .unwrap();

    assert_eq!(out.new_state.power_target, state.power_target);
    assert_eq!(out.new_state.active_profile, ProfileName::Balanced);
    assert!(out
        .effects
        .contains(&Effect::ApplyPlatformProfile(ProfileName::Balanced)));
}

#[test]
fn test_system_resumed_on_battery_with_snapshot_restores_battery_state() {
    let snap = DcSnapshot {
        power_target: PowerEnvelopeTarget {
            spl: PowerMilliwatts(15_000),
            sppt: PowerMilliwatts(17_250),
            fppt: Some(PowerMilliwatts(18_750)),
        },
        active_profile: ProfileName::Balanced,
        active_fan_curve: None,
        fan_follows_tdp: true,
        active_gpu_clock: None,
        gpu_follows_tdp: false,
    };
    let mut state = setup_state();
    state.is_ac_connected = false;
    state.power_target = PowerEnvelopeTarget {
        spl: PowerMilliwatts(35_000),
        sppt: PowerMilliwatts(40_250),
        fppt: Some(PowerMilliwatts(43_750)),
    };
    state.active_profile = ProfileName::Performance;
    state.active_fan_curve = Some(FanCurveSelection::Preset(FanCurvePreset::Aggressive));
    state.fan_follows_tdp = false;
    state.last_dc_state = Some(snap.clone());

    let out = reduce(
        &state,
        Transition::SystemResumed,
        &setup_limits(),
        &setup_config(),
    )
    .unwrap();

    assert_eq!(out.new_state.power_target, snap.power_target);
    assert_eq!(out.new_state.active_profile, ProfileName::Balanced);
    assert_eq!(out.new_state.active_fan_curve, None);
    assert!(out.new_state.fan_follows_tdp);
    assert!(out.new_state.last_dc_state.is_none());
    assert!(out
        .effects
        .iter()
        .any(|e| matches!(e, Effect::ApplyChargeThreshold(_))));
    assert!(out.effects.contains(&Effect::PersistState));
}

#[test]
fn test_toggle_lock_off_while_plugged_restores_and_unlocks() {
    let snap = DcSnapshot {
        power_target: PowerEnvelopeTarget {
            spl: PowerMilliwatts(12_000),
            sppt: PowerMilliwatts(13_800),
            fppt: Some(PowerMilliwatts(15_000)),
        },
        active_profile: ProfileName::Balanced,
        active_fan_curve: Some(FanCurveSelection::Preset(FanCurvePreset::Silent)),
        fan_follows_tdp: true,
        active_gpu_clock: None,
        gpu_follows_tdp: false,
    };
    let mut state = locked_on_ac_state();
    state.last_dc_state = Some(snap.clone());

    let out = reduce(
        &state,
        Transition::SetAcMaxPerformance(false),
        &setup_limits(),
        &setup_config(),
    )
    .unwrap();

    assert!(!out.new_state.ac_max_performance);
    assert_eq!(out.new_state.power_target, snap.power_target);
    assert_eq!(out.new_state.active_profile, ProfileName::Balanced);
    assert_eq!(out.new_state.active_fan_curve, snap.active_fan_curve);
    assert!(out.new_state.last_dc_state.is_none(), "snapshot cleared");
    assert!(out.effects.contains(&Effect::PersistState));
}

#[test]
fn test_toggle_lock_on_while_plugged_forces_and_snapshots() {
    let mut state = setup_state();
    state.is_ac_connected = true;
    state.ac_max_performance = false;
    state.last_dc_state = None;
    let manual = state.clone();

    let out = reduce(
        &state,
        Transition::SetAcMaxPerformance(true),
        &setup_limits(),
        &setup_config(),
    )
    .unwrap();

    assert!(out.new_state.ac_max_performance);
    assert_eq!(out.new_state.power_target.spl, PowerMilliwatts(35_000));
    assert_eq!(out.new_state.active_profile, ProfileName::Performance);
    assert_eq!(
        out.new_state.active_fan_curve,
        Some(FanCurveSelection::Preset(FanCurvePreset::Aggressive))
    );
    assert_eq!(
        out.new_state.last_dc_state,
        Some(DcSnapshot {
            power_target: manual.power_target,
            active_profile: manual.active_profile,
            active_fan_curve: manual.active_fan_curve,
            fan_follows_tdp: manual.fan_follows_tdp,
            active_gpu_clock: manual.active_gpu_clock,
            gpu_follows_tdp: manual.gpu_follows_tdp,
        })
    );
}

#[test]
fn test_toggle_lock_on_battery_just_stores_preference() {
    let state = setup_state();
    let before = state.clone();
    let out = reduce(
        &state,
        Transition::SetAcMaxPerformance(false),
        &setup_limits(),
        &setup_config(),
    )
    .unwrap();
    assert!(!out.new_state.ac_max_performance);
    assert_eq!(out.new_state.power_target, before.power_target);
    assert!(!out.effects.iter().any(|e| matches!(
        e,
        Effect::ApplyPowerEnvelope(_)
            | Effect::ApplyPlatformProfile(_)
            | Effect::ApplyFanCurve(_)
    )));
    assert!(out.effects.contains(&Effect::PersistState));
}

#[test]
fn test_toggle_lock_to_same_value_is_a_noop() {
    let state = locked_on_ac_state();
    let out = reduce(
        &state,
        Transition::SetAcMaxPerformance(true),
        &setup_limits(),
        &setup_config(),
    )
    .unwrap();
    assert_eq!(out.new_state, state);
    assert!(out.effects.is_empty());
}

#[test]
fn test_set_gpu_clock_range_sets_custom_and_disables_follow() {
    let mut state = setup_state();
    state.gpu_follows_tdp = true;
    let out = reduce(
        &state,
        Transition::SetGpuClockRange {
            min_mhz: 600,
            max_mhz: 1_800,
        },
        &setup_limits(),
        &setup_config(),
    )
    .unwrap();
    let expected = GpuClockSelection::Custom(GpuClockRange {
        min_mhz: 600,
        max_mhz: 1_800,
    });
    assert_eq!(out.new_state.active_gpu_clock, Some(expected));
    assert!(!out.new_state.gpu_follows_tdp);
    assert!(out.effects.contains(&Effect::ApplyGpuClockRange(expected)));
    assert!(out.effects.contains(&Effect::PersistState));
}

#[test]
fn test_enable_gpu_auto_follow_infers_and_applies_and_persists() {
    let state = setup_state();
    let out = reduce(
        &state,
        Transition::EnableGpuAutoFollow,
        &setup_limits(),
        &setup_config(),
    )
    .unwrap();
    assert!(out.new_state.gpu_follows_tdp);
    let silent = GpuClockSelection::Preset(FanCurvePreset::Silent);
    assert_eq!(out.new_state.active_gpu_clock, Some(silent));
    assert!(out.effects.contains(&Effect::ApplyGpuClockRange(silent)));
    assert!(out.effects.contains(&Effect::PersistState));
}

#[test]
fn test_enable_gpu_auto_follow_is_no_op_when_already_enabled() {
    let mut state = setup_state();
    state.gpu_follows_tdp = true;
    let out = reduce(
        &state,
        Transition::EnableGpuAutoFollow,
        &setup_limits(),
        &setup_config(),
    )
    .unwrap();
    assert_eq!(out.new_state, state);
    assert!(out.effects.is_empty());
}

#[test]
fn test_reset_gpu_clocks_clears_and_emits_reset() {
    let mut state = setup_state();
    state.active_gpu_clock = Some(GpuClockSelection::Custom(GpuClockRange {
        min_mhz: 600,
        max_mhz: 1_800,
    }));
    state.gpu_follows_tdp = false;
    let out = reduce(
        &state,
        Transition::ResetGpuClocks,
        &setup_limits(),
        &setup_config(),
    )
    .unwrap();
    assert_eq!(out.new_state.active_gpu_clock, None);
    assert!(!out.new_state.gpu_follows_tdp);
    assert_eq!(
        out.effects,
        vec![Effect::ResetGpuClocks, Effect::PersistState]
    );
}

#[test]
fn a_released_gpu_clock_no_longer_follows() {
    let mut state = setup_state();
    state.gpu_follows_tdp = true;
    let out = reduce(
        &state,
        Transition::SyncGpuClockRange(None),
        &setup_limits(),
        &setup_config(),
    )
    .unwrap();
    assert_eq!(out.new_state.active_gpu_clock, None);
    assert!(out.new_state.gpu_follows_tdp);
    for t in [Transition::ResetGpuClocks, Transition::RestoreDefaults] {
        let out = reduce(&out.new_state, t, &setup_limits(), &setup_config()).unwrap();
        assert_eq!(out.new_state.active_gpu_clock, None);
        assert!(!out.new_state.gpu_follows_tdp);
        assert!(out.effects.contains(&Effect::ResetGpuClocks));
        assert_eq!(out.effects.last(), Some(&Effect::PersistState));
    }
}

#[test]
fn test_reset_gpu_clocks_is_no_op_when_already_auto() {
    let state = setup_state();
    let out = reduce(
        &state,
        Transition::ResetGpuClocks,
        &setup_limits(),
        &setup_config(),
    )
    .unwrap();
    assert_eq!(out.new_state, state);
    assert!(out.effects.is_empty());
}

#[test]
fn test_restore_defaults_applies_all_levers_from_dirty_state() {

    let mut state = setup_state();
    state.active_profile = ProfileName::PowerSaver;
    state.charge_end_threshold = 60;
    state.active_fan_curve = Some(FanCurveSelection::Preset(FanCurvePreset::Silent));
    state.fan_follows_tdp = false;
    state.active_gpu_clock = Some(GpuClockSelection::Custom(GpuClockRange {
        min_mhz: 600,
        max_mhz: 1_800,
    }));
    state.gpu_follows_tdp = false;

    let out = reduce(
        &state,
        Transition::RestoreDefaults,
        &setup_limits(),
        &setup_config(),
    )
    .unwrap();

    assert_eq!(out.new_state.power_target.spl, PowerMilliwatts(21_000));
    assert_eq!(out.new_state.active_profile, ProfileName::Performance);
    assert_eq!(out.new_state.charge_end_threshold, DEFAULT_CHARGE_THRESHOLD);
    assert_eq!(out.new_state.active_fan_curve, None);
    assert!(!out.new_state.fan_follows_tdp);
    assert_eq!(out.new_state.active_gpu_clock, None);
    assert!(!out.new_state.gpu_follows_tdp);

    assert!(out
        .effects
        .contains(&Effect::ApplyPlatformProfile(ProfileName::Performance)));
    assert!(out
        .effects
        .contains(&Effect::ApplyChargeThreshold(DEFAULT_CHARGE_THRESHOLD)));
    assert!(out.effects.contains(&Effect::ResetFanCurve));
    assert!(out.effects.contains(&Effect::ResetGpuClocks));
    assert_eq!(
        out.effects
            .iter()
            .filter(|e| matches!(e, Effect::PersistState))
            .count(),
        1,
        "must collapse redundant PersistState effects to exactly one, got {:?}",
        out.effects
    );
    assert_eq!(
        out.effects.last(),
        Some(&Effect::PersistState),
        "the single PersistState must be last, got {:?}",
        out.effects
    );
}

#[test]
fn test_restore_defaults_is_a_full_no_op_when_already_at_defaults() {
    let seeded = reduce(
        &setup_state(),
        Transition::SetSpl(21),
        &setup_limits(),
        &setup_config(),
    )
    .unwrap();
    let mut state = seeded.new_state;
    state.active_profile = ProfileName::Performance;
    state.charge_end_threshold = DEFAULT_CHARGE_THRESHOLD;
    state.active_fan_curve = None;
    state.fan_follows_tdp = false;
    state.active_gpu_clock = None;
    state.gpu_follows_tdp = false;

    let out = reduce(
        &state,
        Transition::RestoreDefaults,
        &setup_limits(),
        &setup_config(),
    )
    .unwrap();

    assert_eq!(out.new_state, state);
    assert!(
        out.effects.is_empty(),
        "an already-at-defaults state must produce zero effects, got {:?}",
        out.effects
    );
}

#[test]
fn test_restore_defaults_resets_gpu_clock_when_opted_in() {

    let mut state = setup_state();
    state.active_gpu_clock = Some(GpuClockSelection::Custom(GpuClockRange {
        min_mhz: 600,
        max_mhz: 1_800,
    }));

    let out = reduce(
        &state,
        Transition::RestoreDefaults,
        &setup_limits(),
        &setup_config(),
    )
    .unwrap();

    assert!(out.effects.contains(&Effect::ResetGpuClocks));
    assert_eq!(out.new_state.active_gpu_clock, None);
}

#[test]
fn test_restore_defaults_does_not_opt_in_gpu_clock() {
    let state = setup_state();
    assert_eq!(state.active_gpu_clock, None);

    let out = reduce(
        &state,
        Transition::RestoreDefaults,
        &setup_limits(),
        &setup_config(),
    )
    .unwrap();

    assert!(!out
        .effects
        .iter()
        .any(|e| matches!(e, Effect::ResetGpuClocks | Effect::ApplyGpuClockRange(_))));
    assert_eq!(out.new_state.active_gpu_clock, None);
}

#[test]
fn test_sync_gpu_clock_range_overwrites_state_without_side_effects() {
    let state = setup_state();
    let real = GpuClockRange {
        min_mhz: 600,
        max_mhz: 1_200,
    };
    let out = reduce(
        &state,
        Transition::SyncGpuClockRange(Some(real)),
        &setup_limits(),
        &setup_config(),
    )
    .unwrap();
    assert_eq!(
        out.new_state.active_gpu_clock,
        Some(GpuClockSelection::Custom(real))
    );
    assert!(
        out.effects.is_empty(),
        "rollback must not produce effects, got {:?}",
        out.effects
    );
}

#[test]
fn test_gpu_clock_follows_tdp_independently_of_fan_curve() {
    let mut state = setup_state();
    state.fan_follows_tdp = false;
    state.gpu_follows_tdp = true;

    let high_target = PowerEnvelopeTarget {
        spl: PowerMilliwatts(30_000),
        sppt: PowerMilliwatts(30_000),
        fppt: Some(PowerMilliwatts(30_000)),
    };
    let out = reduce(
        &state,
        Transition::SetEnvelope(high_target),
        &setup_limits(),
        &setup_config(),
    )
    .unwrap();

    let aggressive = GpuClockSelection::Preset(FanCurvePreset::Aggressive);
    assert_eq!(out.new_state.active_gpu_clock, Some(aggressive));
    assert!(out
        .effects
        .contains(&Effect::ApplyGpuClockRange(aggressive)));
    assert_eq!(out.new_state.active_fan_curve, None);
    assert!(!out
        .effects
        .iter()
        .any(|e| matches!(e, Effect::ApplyFanCurve(_))));
}

#[test]
fn test_lock_ignores_gpu_clock_writes_on_ac() {
    let mut state = locked_on_ac_state();
    state.active_gpu_clock = Some(GpuClockSelection::Preset(FanCurvePreset::Aggressive));
    let out = reduce(
        &state,
        Transition::SetGpuClockRange {
            min_mhz: 600,
            max_mhz: 900,
        },
        &setup_limits(),
        &setup_config(),
    )
    .unwrap();
    assert_eq!(out.new_state, state);
    assert!(out.effects.is_empty());
}

#[test]
fn test_ac_plug_does_not_touch_gpu_clock_when_never_opted_in() {
    let state = setup_state();
    let out = reduce(
        &state,
        Transition::AcPowerChanged(true),
        &setup_limits(),
        &setup_config(),
    )
    .unwrap();
    assert_eq!(
        out.new_state.active_gpu_clock, None,
        "plugging in AC must never auto-opt a user into managed GPU clocks"
    );
    assert!(!out.new_state.gpu_follows_tdp);
    assert!(!out
        .effects
        .iter()
        .any(|e| matches!(e, Effect::ApplyGpuClockRange(_) | Effect::ResetGpuClocks)));
}

#[test]
fn test_ac_plug_pins_gpu_clock_when_already_opted_in() {
    let mut state = setup_state();
    state.gpu_follows_tdp = true;
    state.active_gpu_clock = Some(GpuClockSelection::Preset(FanCurvePreset::Silent));
    let out = reduce(
        &state,
        Transition::AcPowerChanged(true),
        &setup_limits(),
        &setup_config(),
    )
    .unwrap();
    let aggressive = GpuClockSelection::Preset(FanCurvePreset::Aggressive);
    assert_eq!(out.new_state.active_gpu_clock, Some(aggressive));
    assert!(!out.new_state.gpu_follows_tdp, "pinned, not following");
    assert!(out
        .effects
        .contains(&Effect::ApplyGpuClockRange(aggressive)));
    assert_eq!(
        out.new_state
            .last_dc_state
            .as_ref()
            .unwrap()
            .active_gpu_clock,
        Some(GpuClockSelection::Preset(FanCurvePreset::Silent))
    );
    assert!(
        out.new_state
            .last_dc_state
            .as_ref()
            .unwrap()
            .gpu_follows_tdp
    );
}

#[test]
fn test_ac_unplug_restores_gpu_clock_from_snapshot() {
    let gpu_selection = GpuClockSelection::Custom(GpuClockRange {
        min_mhz: 600,
        max_mhz: 1_000,
    });
    let saved = DcSnapshot {
        power_target: PowerEnvelopeTarget {
            spl: PowerMilliwatts(10_000),
            sppt: PowerMilliwatts(12_000),
            fppt: Some(PowerMilliwatts(14_000)),
        },
        active_profile: ProfileName::PowerSaver,
        active_fan_curve: Some(FanCurveSelection::Preset(FanCurvePreset::Silent)),
        fan_follows_tdp: false,
        active_gpu_clock: Some(gpu_selection),
        gpu_follows_tdp: false,
    };
    let mut state = locked_on_ac_state();
    state.last_dc_state = Some(saved.clone());

    let out = reduce(
        &state,
        Transition::AcPowerChanged(false),
        &setup_limits(),
        &setup_config(),
    )
    .unwrap();

    assert_eq!(out.new_state.active_gpu_clock, Some(gpu_selection));
    assert!(!out.new_state.gpu_follows_tdp);
    assert!(out
        .effects
        .contains(&Effect::ApplyGpuClockRange(gpu_selection)));
}

#[test]
fn test_system_resumed_does_not_touch_gpu_clock_when_never_opted_in() {
    let state = setup_state();
    let out = reduce(
        &state,
        Transition::SystemResumed,
        &setup_limits(),
        &setup_config(),
    )
    .unwrap();
    assert!(!out
        .effects
        .iter()
        .any(|e| matches!(e, Effect::ApplyGpuClockRange(_) | Effect::ResetGpuClocks)));
}

#[test]
fn test_system_resumed_reset_then_reapplies_gpu_clock_when_managed() {
    let selection = GpuClockSelection::Custom(GpuClockRange {
        min_mhz: 600,
        max_mhz: 1_500,
    });
    let mut state = setup_state();
    state.active_gpu_clock = Some(selection);

    let out = reduce(
        &state,
        Transition::SystemResumed,
        &setup_limits(),
        &setup_config(),
    )
    .unwrap();

    let reset_idx = out
        .effects
        .iter()
        .position(|e| matches!(e, Effect::ResetGpuClocks));
    let apply_idx = out
        .effects
        .iter()
        .position(|e| matches!(e, Effect::ApplyGpuClockRange(s) if *s == selection));
    assert!(
        reset_idx.is_some() && apply_idx.is_some(),
        "expected both ResetGpuClocks and ApplyGpuClockRange, got {:?}",
        out.effects
    );
    assert!(
        apply_idx.unwrap() > reset_idx.unwrap(),
        "must reset before reapplying (crash-safety: known-clean baseline)"
    );
}

#[test]
fn test_toggle_is_never_gated_by_the_lock() {
    let state = locked_on_ac_state();
    let out = reduce(
        &state,
        Transition::SetAcMaxPerformance(false),
        &setup_limits(),
        &setup_config(),
    )
    .unwrap();
    assert!(
        !out.new_state.ac_max_performance,
        "toggle must not be gated"
    );
}
