use hpd::config::{choose_profile, ConfigFile, DaemonConfig, MAX_CHANNEL_CAPACITY};
use hpd::fan_curve::FanCurvePreset;
use hpd::profile::{GpuClockFractions, ProfileName, ProfileThresholds, RuntimeConfig};
use hpd::single::Single;

fn single(value: f32) -> Single {
    Single::from_bits(value.to_bits())
}

fn silent_file() -> ConfigFile {
    ConfigFile {
        state_path: None,
        channel_capacity: None,
        default_charge_threshold: None,
        default_fan_curve: None,
        default_platform_profile: None,
        default_ac_max_performance: None,
        low_frac: None,
        high_frac: None,
        sppt_factor: None,
        fppt_factor: None,
        silent_max_frac: None,
        balanced_max_frac: None,
        aggressive_max_frac: None,
    }
}

#[test]
fn flatten_keeps_runtime_fields_at_top_level() {
    let cfg = ConfigFile {
        state_path: Some("/tmp/foo.toml".to_string()),
        sppt_factor: Some(single(1.25)),
        low_frac: Some(single(0.40)),
        high_frac: Some(single(0.80)),
        ..silent_file()
    }
    .resolve();
    assert_eq!(cfg.state_path, "/tmp/foo.toml");
    assert_eq!(cfg.runtime.sppt_factor, single(1.25));
    assert_eq!(cfg.runtime.profile_thresholds.low_frac, single(0.40));
    assert_eq!(cfg.runtime.profile_thresholds.high_frac, single(0.80));
    assert_eq!(cfg.runtime.fppt_factor, RuntimeConfig::default().fppt_factor);
    assert_eq!(cfg.channel_capacity, DaemonConfig::default().channel_capacity);
}

#[test]
fn empty_toml_parses_to_default() {
    let cfg = silent_file().resolve();
    assert_eq!(cfg, DaemonConfig::default());
}

#[test]
fn to_runtime_clones_embedded_runtime_verbatim() {
    let cfg = DaemonConfig {
        state_path: "/var/lib/hpd/state.toml".to_string(),
        channel_capacity: 64,
        default_charge_threshold: 90,
        default_fan_curve: Some(FanCurvePreset::Balanced),
        default_platform_profile: ProfileName::Performance,
        default_ac_max_performance: true,
        runtime: RuntimeConfig {
            profile_thresholds: ProfileThresholds {
                low_frac: single(0.25),
                high_frac: single(0.75),
            },
            sppt_factor: single(1.10),
            fppt_factor: single(1.30),
            gpu_clock_fractions: GpuClockFractions::default(),
        },
    };
    assert_eq!(cfg.to_runtime(), cfg.runtime);
}

#[test]
fn load_missing_file_returns_defaults() {
    assert_eq!(DaemonConfig::load(None), DaemonConfig::default());
}

#[test]
fn load_partial_toml_keeps_defaults_for_missing_fields() {
    let cfg = DaemonConfig::load(Some(ConfigFile {
        sppt_factor: Some(single(1.30)),
        ..silent_file()
    }));
    let defaults = DaemonConfig::default();
    assert_eq!(cfg.runtime.sppt_factor, single(1.30));
    assert_eq!(cfg.runtime.fppt_factor, defaults.runtime.fppt_factor);
    assert_eq!(
        cfg.runtime.profile_thresholds,
        defaults.runtime.profile_thresholds
    );
    assert_eq!(cfg.state_path, defaults.state_path);
    assert_eq!(cfg.channel_capacity, defaults.channel_capacity);
    assert_eq!(
        cfg.default_charge_threshold,
        defaults.default_charge_threshold
    );
}

#[test]
fn load_full_valid_toml_reflects_every_field() {
    let cfg = DaemonConfig::load(Some(ConfigFile {
        state_path: Some("/tmp/explicit-state.toml".to_string()),
        channel_capacity: Some(64),
        default_charge_threshold: Some(90),
        sppt_factor: Some(single(1.40)),
        fppt_factor: Some(single(1.60)),
        low_frac: Some(single(0.25)),
        high_frac: Some(single(0.75)),
        ..silent_file()
    }));
    assert_eq!(cfg.state_path, "/tmp/explicit-state.toml");
    assert_eq!(cfg.channel_capacity, 64);
    assert_eq!(cfg.default_charge_threshold, 90);
    assert_eq!(cfg.runtime.sppt_factor, single(1.40));
    assert_eq!(cfg.runtime.fppt_factor, single(1.60));
    assert_eq!(cfg.runtime.profile_thresholds.low_frac, single(0.25));
    assert_eq!(cfg.runtime.profile_thresholds.high_frac, single(0.75));
}

#[test]
fn the_standard_configuration() {
    let cfg = DaemonConfig::default();
    assert_eq!(cfg.state_path, "/var/lib/hpd/state.toml");
    assert_eq!(cfg.channel_capacity, 32);
    assert_eq!(cfg.default_charge_threshold, 80);
    assert_eq!(cfg.default_fan_curve, Some(FanCurvePreset::Balanced));
    assert_eq!(cfg.default_platform_profile, ProfileName::Performance);
    assert!(cfg.default_ac_max_performance);
    assert_eq!(cfg.runtime.sppt_factor, single(1.15));
    assert_eq!(cfg.runtime.fppt_factor, single(1.25));
    assert_eq!(cfg.runtime.profile_thresholds.low_frac, single(0.33));
    assert_eq!(cfg.runtime.profile_thresholds.high_frac, single(0.67));
}

#[test]
fn broken_tuning_is_mended_as_it_is_read() {
    let cfg = ConfigFile {
        sppt_factor: Some(single(0.0)),
        fppt_factor: Some(single(1.5)),
        low_frac: Some(single(0.9)),
        high_frac: Some(single(0.1)),
        ..silent_file()
    }
    .resolve();
    assert_eq!(cfg.runtime.sppt_factor, single(1.15));
    assert_eq!(cfg.runtime.fppt_factor, single(1.5));
    assert_eq!(cfg.runtime.profile_thresholds.low_frac, single(0.33));
    assert_eq!(cfg.runtime.profile_thresholds.high_frac, single(0.67));
    assert_eq!(cfg.to_runtime(), cfg.to_runtime().sanitized());
}

#[test]
fn a_capacity_that_no_channel_can_have_is_the_standard_one() {
    let capacity = |asked: usize| {
        ConfigFile {
            channel_capacity: Some(asked),
            ..silent_file()
        }
        .resolve()
        .channel_capacity
    };
    assert_eq!(capacity(0), 32);
    assert_eq!(capacity(1), 1);
    assert_eq!(capacity(MAX_CHANNEL_CAPACITY), MAX_CHANNEL_CAPACITY);
    assert_eq!(capacity(usize::MAX), 32);
}

#[test]
fn load_corrupt_toml_returns_defaults_without_panic() {
    let text = "this is not valid TOML !!! [unclosed";
    let parsed = toml::from_str::<toml::Table>(text);
    assert!(parsed.is_err());
    let cfg = DaemonConfig::load(parsed.ok().map(|_| silent_file()));
    assert_eq!(cfg, DaemonConfig::default());
}

#[test]
fn the_platform_profile_is_read_leniently() {
    assert_eq!(choose_profile(None), ProfileName::Performance);
    assert_eq!(choose_profile(Some("  ".to_string())), ProfileName::Performance);
    assert_eq!(choose_profile(Some("Quiet".to_string())), ProfileName::PowerSaver);
    assert_eq!(choose_profile(Some("BALANCED".to_string())), ProfileName::Balanced);
    assert_eq!(
        choose_profile(Some("Turbo".to_string())),
        ProfileName::Custom("Turbo".to_string())
    );
}
