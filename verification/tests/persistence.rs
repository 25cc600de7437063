use hpd::fan_curve::{FanCurvePreset, FanCurveSelection};
use hpd::persistence::{SavedState, StatePersister};
use hpd::power::PowerEnvelopeTarget;
use hpd::profile::ProfileName;
use hpd::state::{default_ac_max_performance, DcSnapshot, ProfileState};
use hpd::units::PowerMilliwatts;

fn sample_state() -> ProfileState {
    ProfileState {
        power_target: PowerEnvelopeTarget {
            spl: PowerMilliwatts(20_000),
            sppt: PowerMilliwatts(23_000),
            fppt: Some(PowerMilliwatts(25_000)),
        },
        active_profile: ProfileName::Performance,
        is_ac_connected: true,
        charge_end_threshold: 80,
        fan_follows_tdp: true,
        last_dc_state: None,
        ac_max_performance: true,
        active_fan_curve: None,
        active_gpu_clock: None,
        gpu_follows_tdp: false,
        ac_locked: false,
    }
}

#[test]
fn save_then_load_roundtrips_persisted_fields() {
    let persister = StatePersister::new("/var/lib/hpd/state.toml".to_string());
    assert_eq!(persister.path, "/var/lib/hpd/state.toml");
    let saved = sample_state();
    let loaded = persister
        .load(Some(persister.save(&saved)))
        .expect("save then load must yield Some");

    assert_eq!(loaded.power_target, saved.power_target);
    assert_eq!(loaded.active_profile, saved.active_profile);
    assert_eq!(loaded.charge_end_threshold, saved.charge_end_threshold);
    assert_eq!(loaded.fan_follows_tdp, saved.fan_follows_tdp);
    assert_eq!(loaded.last_dc_state, saved.last_dc_state);
    assert!(!loaded.is_ac_connected);
}

#[test]
fn load_missing_file_returns_none_without_error() {
    let persister = StatePersister::new("/nowhere".to_string());
    assert!(persister.load(None).is_none());
}

#[test]
fn the_levers_on_battery_come_back() {
    let persister = StatePersister::new("/state".to_string());
    let mut state = sample_state();
    state.ac_locked = true;
    state.ac_max_performance = false;
    state.last_dc_state = Some(DcSnapshot {
        power_target: state.power_target,
        active_profile: ProfileName::Custom("vendor".to_string()),
        active_fan_curve: Some(FanCurveSelection::Preset(FanCurvePreset::Silent)),
        fan_follows_tdp: false,
        active_gpu_clock: None,
        gpu_follows_tdp: true,
    });
    let loaded = persister.load(Some(persister.save(&state))).unwrap();
    assert_eq!(
        loaded,
        ProfileState { is_ac_connected: false, ac_locked: false, ..state }
    );
}

#[test]
fn an_older_file_reads_as_locked_and_without_a_gpu_clock() {
    let persister = StatePersister::new("/state".to_string());
    let older = SavedState {
        ac_max_performance: None,
        gpu_follows_tdp: None,
        ..persister.save(&sample_state())
    };
    let loaded = persister.load(Some(older)).unwrap();
    assert!(loaded.ac_max_performance);
    assert!(default_ac_max_performance());
    assert!(!loaded.gpu_follows_tdp);
}

#[test]
fn load_corrupt_toml_returns_none_without_panic() {
    let text = "this is not TOML at all !!! [unclosed";
    let parsed = toml::from_str::<toml::Table>(text);
    assert!(parsed.is_err());
    let persister = StatePersister::new("/state".to_string());
    let found = parsed.ok().map(|_| persister.save(&sample_state()));
    assert!(persister.load(found).is_none());
}

#[test]
fn second_save_overwrites_first_via_atomic_rename() {
    let persister = StatePersister::new("/state".to_string());
    let mut state = sample_state();
    let mut file = persister.save(&state);
    assert_eq!(file.charge_end_threshold, 80);

    state.charge_end_threshold = 50;
    state.active_profile = ProfileName::PowerSaver;
    file = persister.save(&state);

    let loaded = StatePersister::new("/state".to_string())
        .load(Some(file))
        .expect("must load");
    assert_eq!(loaded.charge_end_threshold, 50);
    assert_eq!(loaded.active_profile, ProfileName::PowerSaver);
}
