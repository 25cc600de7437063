use hpd::backend::{HwBackend, PowerHandle};
use hpd::charge::{ChargeControl, DEFAULT_CHARGE_THRESHOLD};
use hpd::effect::Effect;
use hpd::error::{BackendError, HpdError};
use hpd::executor::{
    refresh_charger, resolve_range, rollback, Executor, FollowUp, Step, StepOutcome,
    TRANSITION_CHANNEL_CAPACITY,
};
use hpd::fan::FanControl;
use hpd::fan_curve::{
    ActiveFanCurves, FanCurveConstraints, FanCurveControl, FanCurvePreset, FanCurveSelection,
};
use hpd::gpu_clock::{
    GpuClockConstraints, GpuClockRange, GpuClockRangeControl, GpuClockSelection,
};
use hpd::platform_profile::PlatformProfile;
use hpd::power::{PowerEnvelope, PowerEnvelopeLimits, PowerEnvelopeTarget};
use hpd::profile::{GpuClockFractions, ProfileName, ProfileThresholds, RuntimeConfig};
use hpd::run::{Action, Event};
use hpd::single::Single;
use hpd::state::ProfileState;
use hpd::transition::Transition;
use hpd::units::{PowerMilliwatts, Rpm};
use std::collections::VecDeque;
use std::sync::atomic::{AtomicBool, Ordering};
use std::sync::{Arc, Mutex};

#[derive(Debug, Clone, PartialEq)]
enum RecordedCall {
    SetTarget(PowerEnvelopeTarget),
    SetProfile(ProfileName),
    SetChargeThreshold(u8),
}

/// A backend held in memory. Clones share what it holds.
#[derive(Clone)]
struct MockBackend {
    power: Arc<Mutex<PowerEnvelopeTarget>>,
    profile: Arc<Mutex<ProfileName>>,
    charge: Arc<Mutex<u8>>,
    limits: PowerEnvelopeLimits,
    ac_connected: Arc<AtomicBool>,
    fail_writes: Arc<AtomicBool>,
    write_log: Arc<Mutex<Vec<RecordedCall>>>,
}

impl MockBackend {
    fn new(initial_power: PowerEnvelopeTarget, limits: PowerEnvelopeLimits) -> Self {
        MockBackend {
            power: Arc::new(Mutex::new(initial_power)),
            profile: Arc::new(Mutex::new(ProfileName::Balanced)),
            charge: Arc::new(Mutex::new(DEFAULT_CHARGE_THRESHOLD)),
            limits,
            ac_connected: Arc::new(AtomicBool::new(false)),
            fail_writes: Arc::new(AtomicBool::new(false)),
            write_log: Arc::new(Mutex::new(Vec::new())),
        }
    }

    fn calls(&self) -> Vec<RecordedCall> {
        self.write_log.lock().unwrap().clone()
    }

    fn record(&self, what: &str, call: RecordedCall) -> Result<(), HpdError> {
        if self.fail_writes.load(Ordering::SeqCst) {
            return Err(HpdError::Backend(BackendError::Other(format!(
                "mock: simulated failure on {what}"
            ))));
        }
        self.write_log.lock().unwrap().push(call);
        Ok(())
    }
}

impl PowerEnvelope for MockBackend {
    fn get_limits(&self) -> Result<PowerEnvelopeLimits, HpdError> {
        Ok(self.limits)
    }

    fn get_target(&self) -> Result<PowerEnvelopeTarget, HpdError> {
        Ok(*self.power.lock().unwrap())
    }

    fn set_target(&self, target: &PowerEnvelopeTarget) -> Result<(), HpdError> {
        self.record("set_target", RecordedCall::SetTarget(*target))?;
        *self.power.lock().unwrap() = *target;
        Ok(())
    }
}

impl ChargeControl for MockBackend {
    fn is_ac_connected(&self) -> Result<bool, HpdError> {
        Ok(self.ac_connected.load(Ordering::SeqCst))
    }

    fn set_end_threshold(&self, threshold: u8) -> Result<(), HpdError> {
        self.record("set_end_threshold", RecordedCall::SetChargeThreshold(threshold))?;
        *self.charge.lock().unwrap() = threshold;
        Ok(())
    }

    fn get_end_threshold(&self) -> Result<u8, HpdError> {
        Ok(*self.charge.lock().unwrap())
    }
}

impl PlatformProfile for MockBackend {
    fn get_active_profile(&self) -> Result<ProfileName, HpdError> {
        Ok(self.profile.lock().unwrap().clone())
    }

    fn set_active_profile(&self, profile: &ProfileName) -> Result<(), HpdError> {
        self.record("set_active_profile", RecordedCall::SetProfile(profile.clone()))?;
        *self.profile.lock().unwrap() = profile.clone();
        Ok(())
    }
}

impl FanControl for MockBackend {
    fn get_cpu_fan_rpm(&self) -> Result<Rpm, HpdError> {
        Ok(Rpm(0))
    }

    fn get_gpu_fan_rpm(&self) -> Result<Option<Rpm>, HpdError> {
        Ok(None)
    }
}

impl HwBackend for MockBackend {
    fn power(&self) -> PowerHandle<'_> {
        PowerHandle(self)
    }

    fn charge(&self) -> Option<&dyn ChargeControl> {
        Some(self)
    }

    fn profile(&self) -> Option<&dyn PlatformProfile> {
        Some(self)
    }

    fn fan(&self) -> Option<&dyn FanControl> {
        Some(self)
    }
}

fn limits() -> PowerEnvelopeLimits {
    PowerEnvelopeLimits {
        spl_min: PowerMilliwatts(7_000),
        spl_max: PowerMilliwatts(35_000),
        sppt_min: PowerMilliwatts(7_000),
        sppt_max: PowerMilliwatts(43_000),
        fppt_min: PowerMilliwatts(7_000),
        fppt_max: PowerMilliwatts(55_000),
    }
}

fn config() -> RuntimeConfig {
    RuntimeConfig::default()
}

fn single(value: f32) -> Single {
    Single::from_bits(value.to_bits())
}

fn initial_state() -> ProfileState {
    ProfileState {
        power_target: PowerEnvelopeTarget {
            spl: PowerMilliwatts(15_000),
            sppt: PowerMilliwatts(15_000),
            fppt: Some(PowerMilliwatts(15_000)),
        },
        active_profile: ProfileName::Balanced,
        is_ac_connected: false,
        charge_end_threshold: 80,
        fan_follows_tdp: true,
        last_dc_state: None,
        active_fan_curve: None,
        active_gpu_clock: None,
        gpu_follows_tdp: false,
        ac_max_performance: true,
        ac_locked: false,
    }
}

/// Apply a transition and everything that follows from it. Returns the states
/// that were to be kept.
fn drive<B: HwBackend>(executor: &mut Executor<B>, transition: Transition) -> Vec<ProfileState> {
    let mut queue = VecDeque::from([transition]);
    let mut kept = Vec::new();
    while let Some(transition) = queue.pop_front() {
        let Step { outcome, .. } = executor.step(transition);
        if let StepOutcome::Applied(effects) = outcome {
            for effect in &effects {
                match executor.handle_effect(effect) {
                    FollowUp::Sync { transition, .. } => queue.push_back(transition),
                    FollowUp::Persist => kept.push(executor.state.clone()),
                    _ => {}
                }
            }
        }
    }
    kept
}

#[test]
fn test_executor_applies_envelope_and_persists() {
    let backend = MockBackend::new(initial_state().power_target, limits());
    let backend_handle = backend.clone();
    let mut executor = Executor::new(backend, initial_state(), limits(), config());

    let kept = drive(&mut executor, Transition::SetSpl(20));
    assert_eq!(executor.state.power_target.spl, PowerMilliwatts(20_000));
    assert!(backend_handle.calls().iter().any(
        |c| matches!(c, RecordedCall::SetTarget(t) if t.spl == PowerMilliwatts(20_000))
    ));
    let persisted = kept.last().expect("the state is to be kept");
    assert_eq!(persisted.power_target.spl, PowerMilliwatts(20_000));
}

#[test]
fn test_executor_rolls_back_on_hardware_failure() {
    let hw_real = PowerEnvelopeTarget {
        spl: PowerMilliwatts(10_000),
        sppt: PowerMilliwatts(11_500),
        fppt: Some(PowerMilliwatts(12_500)),
    };
    let backend = MockBackend::new(hw_real, limits());
    backend.fail_writes.store(true, Ordering::SeqCst);
    let mut executor = Executor::new(backend, initial_state(), limits(), config());

    drive(&mut executor, Transition::SetSpl(20));
    assert_eq!(executor.state.power_target, hw_real);
}

#[test]
fn test_executor_rolls_back_on_profile_write_failure() {
    let backend = MockBackend::new(initial_state().power_target, limits());
    *backend.profile.lock().unwrap() = ProfileName::Balanced;
    backend.fail_writes.store(true, Ordering::SeqCst);
    let mut start_state = initial_state();
    start_state.active_profile = ProfileName::PowerSaver;
    let mut executor = Executor::new(backend, start_state, limits(), config());

    drive(&mut executor, Transition::SetProfile(ProfileName::Performance));
    assert_eq!(executor.state.active_profile, ProfileName::Balanced);
}

#[test]
fn test_executor_rolls_back_on_charge_threshold_write_failure() {
    let backend = MockBackend::new(initial_state().power_target, limits());
    *backend.charge.lock().unwrap() = 75;
    backend.fail_writes.store(true, Ordering::SeqCst);
    let mut executor = Executor::new(backend, initial_state(), limits(), config());

    drive(&mut executor, Transition::ChargeThresholdChanged(60));
    assert_eq!(executor.state.charge_end_threshold, 75);
}

#[test]
fn test_executor_propagates_state_to_watch_receiver() {
    let backend = MockBackend::new(initial_state().power_target, limits());
    let mut executor = Executor::new(backend, initial_state(), limits(), config());

    drive(&mut executor, Transition::ChargeThresholdChanged(70));
    assert_eq!(executor.state.charge_end_threshold, 70);
}

#[test]
fn test_executor_config_reload_swaps_runtime_config() {
    let backend = MockBackend::new(initial_state().power_target, limits());
    let mut executor = Executor::new(backend, initial_state(), limits(), config());

    drive(&mut executor, Transition::SetSpl(15));
    assert_eq!(executor.state.power_target.spl, PowerMilliwatts(15_000));

    let new_runtime = RuntimeConfig {
        profile_thresholds: ProfileThresholds::default(),
        sppt_factor: single(2.0),
        fppt_factor: single(2.0),
        gpu_clock_fractions: GpuClockFractions::default(),
    };
    drive(&mut executor, Transition::ConfigReload(new_runtime));

    drive(&mut executor, Transition::SetSpl(20));
    assert_eq!(executor.state.power_target.spl, PowerMilliwatts(20_000));
    assert_eq!(
        executor.state.power_target.sppt,
        PowerMilliwatts(40_000),
        "ConfigReload should have swapped sppt_factor to 2.0; expected 20W * 2.0 = 40000mW"
    );
    assert_eq!(
        executor.state.power_target.fppt,
        Some(PowerMilliwatts(40_000)),
        "ConfigReload should have swapped fppt_factor to 2.0; expected 20W * 2.0 = 40000mW"
    );
}

#[test]
fn test_executor_shutdown_persists_state_and_exits_cleanly() {
    let backend = MockBackend::new(initial_state().power_target, limits());
    let mut executor = Executor::new(backend, initial_state(), limits(), config());

    drive(&mut executor, Transition::SetSpl(22));
    assert_eq!(executor.state.power_target.spl, PowerMilliwatts(22_000));

    let step = executor.step(Transition::Shutdown);
    assert!(step.stop);
    let StepOutcome::Applied(effects) = step.outcome else {
        panic!("a shutdown is never refused");
    };
    assert_eq!(effects, vec![Effect::PersistState]);
    assert!(matches!(executor.handle_effect(&effects[0]), FollowUp::Persist));
    assert_eq!(executor.state.power_target.spl, PowerMilliwatts(22_000));
}

#[test]
fn test_resume_rereads_ac_state_from_hardware() {
    let backend = MockBackend::new(initial_state().power_target, limits());
    backend.ac_connected.store(true, Ordering::SeqCst);
    let mut executor = Executor::new(backend, initial_state(), limits(), config());

    drive(&mut executor, Transition::SystemResumed);
    let settled = &executor.state;
    assert!(settled.is_ac_connected, "AC re-read from hardware on resume");
    assert!(settled.ac_locked, "locked on AC after the re-read");
    assert_eq!(settled.power_target.spl, PowerMilliwatts(35_000));
}

#[test]
fn rollback_does_not_block_when_channel_is_saturated() {
    // The follow-up is handed back to the caller: nothing waits for room in a
    // queue.
    let sync_target = PowerEnvelopeTarget {
        spl: PowerMilliwatts(10_000),
        sppt: PowerMilliwatts(11_500),
        fppt: Some(PowerMilliwatts(12_500)),
    };
    let follow_up = rollback(
        HpdError::FeatureUnsupported,
        Ok(Transition::SyncPowerTarget(sync_target)),
    );
    assert!(matches!(
        follow_up,
        FollowUp::Sync {
            cause: HpdError::FeatureUnsupported,
            transition: Transition::SyncPowerTarget(target),
        } if target == sync_target
    ));
}

#[test]
fn an_unreadable_device_leaves_the_state_diverged() {
    let follow_up = rollback(
        HpdError::InvariantViolation("write".to_string()),
        Err(HpdError::FeatureUnsupported),
    );
    assert!(matches!(
        follow_up,
        FollowUp::Diverged { unread: HpdError::FeatureUnsupported, .. }
    ));
}

#[test]
fn a_refused_transition_changes_nothing() {
    let backend = MockBackend::new(initial_state().power_target, limits());
    let mut executor = Executor::new(backend, initial_state(), limits(), config());
    let step = executor.step(Transition::SetSpl(500));
    assert!(!step.stop);
    assert!(matches!(
        step.outcome,
        StepOutcome::Refused(HpdError::InvariantViolation(_))
    ));
    assert_eq!(executor.state, initial_state());
}

#[test]
fn the_same_tuning_is_no_change() {
    let backend = MockBackend::new(initial_state().power_target, limits());
    let mut executor = Executor::new(backend, initial_state(), limits(), config());
    let step = executor.step(Transition::ConfigReload(config()));
    assert!(matches!(step.outcome, StepOutcome::Reconfigured(false)));
    let other = RuntimeConfig { sppt_factor: single(1.5), ..config() };
    let step = executor.step(Transition::ConfigReload(other));
    assert!(matches!(step.outcome, StepOutcome::Reconfigured(true)));
    assert_eq!(executor.config, other);
}

#[test]
fn the_lock_flag_tells_what_holds() {
    let backend = MockBackend::new(initial_state().power_target, limits());
    let mut executor = Executor::new(backend, initial_state(), limits(), config());
    drive(&mut executor, Transition::AcPowerChanged(true));
    assert!(executor.state.ac_locked);
    drive(&mut executor, Transition::SetAcMaxPerformance(false));
    assert!(!executor.state.ac_locked);
    drive(&mut executor, Transition::SetAcMaxPerformance(true));
    assert!(executor.state.ac_locked);
    drive(&mut executor, Transition::AcPowerChanged(false));
    assert!(!executor.state.ac_locked);
}

#[test]
fn effects_without_a_capability_come_to_nothing() {
    let backend = MockBackend::new(initial_state().power_target, limits());
    let executor = Executor::new(backend, initial_state(), limits(), config());
    for effect in [
        Effect::ApplyFanCurve(FanCurveSelection::Preset(FanCurvePreset::Silent)),
        Effect::ResetFanCurve,
        Effect::ApplyGpuClockRange(GpuClockSelection::Preset(FanCurvePreset::Silent)),
        Effect::ResetGpuClocks,
    ] {
        assert!(matches!(executor.handle_effect(&effect), FollowUp::Unsupported));
    }
}

#[test]
fn an_unknown_charger_keeps_the_last_known_state() {
    let mut state = initial_state();
    state.is_ac_connected = true;
    let kept = refresh_charger(state.clone(), &None);
    assert!(kept.is_ac_connected);
    let kept = refresh_charger(state.clone(), &Some(Err(HpdError::FeatureUnsupported)));
    assert!(kept.is_ac_connected);
    let unplugged = refresh_charger(state, &Some(Ok(false)));
    assert!(!unplugged.is_ac_connected);
}

/// A device whose fans and GPU clock refuse every write, and tell what they run.
struct Stubborn;

impl PowerEnvelope for Stubborn {
    fn get_limits(&self) -> Result<PowerEnvelopeLimits, HpdError> {
        Ok(limits())
    }

    fn get_target(&self) -> Result<PowerEnvelopeTarget, HpdError> {
        Err(HpdError::FeatureUnsupported)
    }

    fn set_target(&self, _target: &PowerEnvelopeTarget) -> Result<(), HpdError> {
        Err(HpdError::FeatureUnsupported)
    }
}

impl FanCurveControl for Stubborn {
    fn apply(&self, _selection: &FanCurveSelection) -> Result<(), HpdError> {
        Err(HpdError::FeatureUnsupported)
    }

    fn reset_to_auto(&self) -> Result<(), HpdError> {
        Err(HpdError::FeatureUnsupported)
    }

    fn get_curves(&self) -> Result<ActiveFanCurves, HpdError> {
        Err(HpdError::FeatureUnsupported)
    }

    fn active_selection(&self) -> Result<Option<FanCurveSelection>, HpdError> {
        Ok(Some(FanCurveSelection::Preset(FanCurvePreset::Aggressive)))
    }

    fn constraints(&self) -> FanCurveConstraints {
        FanCurveConstraints {
            temp_min_c: 30,
            temp_max_c: 95,
            pwm_min: 0,
            pwm_max: 255,
            safety_floor: vec![],
        }
    }
}

impl GpuClockRangeControl for Stubborn {
    fn set_range(&self, range: &GpuClockRange) -> Result<(), HpdError> {
        Err(HpdError::InvariantViolation(format!(
            "{}..{}",
            range.min_mhz, range.max_mhz
        )))
    }

    fn reset_to_auto(&self) -> Result<(), HpdError> {
        Err(HpdError::FeatureUnsupported)
    }

    fn active_range(&self) -> Result<Option<GpuClockRange>, HpdError> {
        Ok(None)
    }

    fn constraints(&self) -> Result<GpuClockConstraints, HpdError> {
        Ok(GpuClockConstraints { range_min_mhz: 600, range_max_mhz: 2_900 })
    }
}

impl HwBackend for Stubborn {
    fn power(&self) -> PowerHandle<'_> {
        PowerHandle(self)
    }

    fn fan_curve(&self) -> Option<&dyn FanCurveControl> {
        Some(self)
    }

    fn gpu_clock(&self) -> Option<&dyn GpuClockRangeControl> {
        Some(self)
    }
}

#[test]
fn refused_fans_and_clocks_are_read_back() {
    let executor = Executor::new(Stubborn, initial_state(), limits(), config());
    let silent = FanCurveSelection::Preset(FanCurvePreset::Silent);
    for effect in [Effect::ApplyFanCurve(silent), Effect::ResetFanCurve] {
        assert!(matches!(
            executor.handle_effect(&effect),
            FollowUp::Sync {
                transition: Transition::SyncFanCurve(Some(FanCurveSelection::Preset(
                    FanCurvePreset::Aggressive
                ))),
                ..
            }
        ));
    }
    assert!(matches!(
        executor.handle_effect(&Effect::ResetGpuClocks),
        FollowUp::Sync { transition: Transition::SyncGpuClockRange(None), .. }
    ));
    let target = initial_state().power_target;
    assert!(matches!(
        executor.handle_effect(&Effect::ApplyPowerEnvelope(target)),
        FollowUp::Diverged { .. }
    ));
}

#[test]
fn a_tier_is_resolved_against_the_device() {
    let executor = Executor::new(Stubborn, initial_state(), limits(), config());
    let effect = Effect::ApplyGpuClockRange(GpuClockSelection::Preset(FanCurvePreset::Silent));
    let FollowUp::Sync { cause: HpdError::InvariantViolation(asked), .. } =
        executor.handle_effect(&effect)
    else {
        panic!("the device refuses every range");
    };
    assert_eq!(asked, "600..1865");

    let own = GpuClockRange { min_mhz: 700, max_mhz: 800 };
    let resolved = resolve_range(
        &GpuClockSelection::Custom(own),
        Err(HpdError::FeatureUnsupported),
        &config(),
    );
    assert_eq!(resolved.unwrap(), own);
    let unreadable = resolve_range(
        &GpuClockSelection::Preset(FanCurvePreset::Silent),
        Err(HpdError::FeatureUnsupported),
        &config(),
    );
    assert!(matches!(unreadable, Err(HpdError::FeatureUnsupported)));
}

#[test]
fn the_queue_holds_thirty_two_transitions() {
    assert_eq!(TRANSITION_CHANNEL_CAPACITY, 32);
}

#[test]
fn restored_defaults_reach_the_hardware() {
    let mut dirty = initial_state();
    dirty.active_profile = ProfileName::PowerSaver;
    dirty.charge_end_threshold = 60;
    dirty.active_gpu_clock = None;
    let backend = MockBackend::new(dirty.power_target, limits());
    let backend_handle = backend.clone();
    let mut executor = Executor::new(backend, dirty, limits(), config());

    let kept = drive(&mut executor, Transition::RestoreDefaults);
    assert_eq!(executor.state.power_target.spl, PowerMilliwatts(21_000));
    assert_eq!(executor.state.active_profile, ProfileName::Performance);
    assert_eq!(executor.state.charge_end_threshold, 80);
    let calls = backend_handle.calls();
    assert!(calls.iter().any(
        |c| matches!(c, RecordedCall::SetTarget(t) if t.spl == PowerMilliwatts(21_000))
    ));
    assert!(calls.iter().any(|c| matches!(c, RecordedCall::SetProfile(ProfileName::Performance))));
    assert!(calls.iter().any(|c| matches!(c, RecordedCall::SetChargeThreshold(80))));
    let persisted = kept.last().expect("the state is to be kept");
    assert_eq!(persisted.active_profile, ProfileName::Performance);
    assert_eq!(persisted.charge_end_threshold, 80);
}

fn receive(transition: Transition) -> Event {
    Event::Received(Some(transition))
}

#[test]
fn a_run_tells_then_carries_out_then_waits() {
    let backend = MockBackend::new(initial_state().power_target, limits());
    let mut executor = Executor::new(backend, initial_state(), limits(), config());
    let Action::Publish(told) = executor.run(receive(Transition::AcPowerChanged(true))) else {
        panic!("an applied transition is told");
    };
    assert!(told.ac_locked);
    assert_eq!(told, executor.state);
    let mut carried_out = Vec::new();
    let mut action = executor.run(Event::Published(true));
    while let Action::Dispatch(effect) = action {
        carried_out.push(effect);
        action = executor.run(Event::Dispatched);
    }
    assert!(matches!(action, Action::Receive));
    assert_eq!(carried_out.len(), 4);
    assert!(matches!(carried_out[0], Effect::ApplyPowerEnvelope(_)));
    assert_eq!(
        carried_out[1],
        Effect::ApplyPlatformProfile(ProfileName::Performance)
    );
    assert_eq!(
        carried_out[2],
        Effect::ApplyFanCurve(FanCurveSelection::Preset(FanCurvePreset::Aggressive))
    );
    assert_eq!(carried_out[3], Effect::PersistState);
}

#[test]
fn a_run_notes_a_refusal_and_waits() {
    let backend = MockBackend::new(initial_state().power_target, limits());
    let mut executor = Executor::new(backend, initial_state(), limits(), config());
    assert!(matches!(
        executor.run(receive(Transition::SetSpl(500))),
        Action::Refuse(HpdError::InvariantViolation(_))
    ));
    assert_eq!(executor.state, initial_state());
    assert!(matches!(executor.run(Event::Noted), Action::Receive));
}

#[test]
fn a_run_goes_by_the_tuning_that_was_read_last() {
    let backend = MockBackend::new(initial_state().power_target, limits());
    let mut executor = Executor::new(backend, initial_state(), limits(), config());
    let tuning = RuntimeConfig { sppt_factor: single(2.0), ..config() };
    assert!(matches!(
        executor.run(receive(Transition::ConfigReload(tuning))),
        Action::Receive
    ));
    let Action::Publish(told) = executor.run(receive(Transition::SetSpl(20))) else {
        panic!("an applied transition is told");
    };
    assert_eq!(told.power_target.sppt, PowerMilliwatts(40_000));
}

#[test]
fn a_run_is_over_after_the_effects_of_a_shutdown() {
    let backend = MockBackend::new(initial_state().power_target, limits());
    let mut executor = Executor::new(backend, initial_state(), limits(), config());
    assert!(matches!(
        executor.run(receive(Transition::Shutdown)),
        Action::Publish(_)
    ));
    assert!(matches!(
        executor.run(Event::Published(true)),
        Action::Dispatch(Effect::PersistState)
    ));
    assert!(matches!(executor.run(Event::Dispatched), Action::Stop));
    assert!(matches!(
        executor.run(receive(Transition::SetSpl(20))),
        Action::Stop
    ));
    assert_eq!(executor.state, initial_state());
}

#[test]
fn a_run_is_over_without_observers_or_transitions() {
    let backend = MockBackend::new(initial_state().power_target, limits());
    let mut executor = Executor::new(backend.clone(), initial_state(), limits(), config());
    assert!(matches!(
        executor.run(receive(Transition::SetSpl(20))),
        Action::Publish(_)
    ));
    assert!(matches!(executor.run(Event::Published(false)), Action::Stop));
    assert!(backend.calls().is_empty());
    let mut executor = Executor::new(backend, initial_state(), limits(), config());
    assert!(matches!(executor.run(Event::Received(None)), Action::Stop));
}
