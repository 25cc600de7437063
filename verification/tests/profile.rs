use hpd::profile::{GpuClockFractions, ProfileName, ProfileThresholds, RuntimeConfig, TdpPreset};
use hpd::single::Single;

fn single(value: f32) -> Single {
    Single::from_bits(value.to_bits())
}

#[test]
fn profile_display_format_is_kebab_lowercase() {
    assert_eq!(ProfileName::PowerSaver.to_string(), "power-saver");
    assert_eq!(ProfileName::Balanced.to_string(), "balanced");
    assert_eq!(ProfileName::Performance.to_string(), "performance");
    assert_eq!(ProfileName::Custom("foo".into()).to_string(), "foo");
}

#[test]
fn profile_roundtrip_display_to_fromstr() {
    let cases = [
        ProfileName::PowerSaver,
        ProfileName::Balanced,
        ProfileName::Performance,
        ProfileName::Custom("very-eco".into()),
    ];
    for p in cases {
        let s = p.to_string();
        let parsed = s
            .parse::<ProfileName>()
            .unwrap_or_else(|e| panic!("roundtrip failed for {:?}: {}", p, e));
        assert_eq!(parsed, p, "Display/FromStr roundtrip broken for {:?}", p);
    }
}

#[test]
fn profile_fromstr_accepts_acpi_aliases_and_case() {
    assert_eq!(
        "quiet".parse::<ProfileName>().unwrap(),
        ProfileName::PowerSaver
    );
    assert_eq!(
        "low-power".parse::<ProfileName>().unwrap(),
        ProfileName::PowerSaver
    );
    assert_eq!(
        "POWER-SAVER".parse::<ProfileName>().unwrap(),
        ProfileName::PowerSaver
    );
    assert_eq!(
        "Balanced".parse::<ProfileName>().unwrap(),
        ProfileName::Balanced
    );
    assert_eq!(
        "PERFORMANCE".parse::<ProfileName>().unwrap(),
        ProfileName::Performance
    );
}

#[test]
fn profile_fromstr_unknown_becomes_custom() {
    assert_eq!(
        "ultra".parse::<ProfileName>().unwrap(),
        ProfileName::Custom("ultra".into())
    );
}

#[test]
fn an_unknown_name_is_kept_as_it_is() {
    let vendor = ProfileName::Custom("Ultra-X".into());
    assert_eq!("Ultra-X".parse::<ProfileName>().unwrap(), vendor);
    assert_eq!(vendor.to_string().parse::<ProfileName>().unwrap(), vendor);
    assert_eq!(
        " balanced".parse::<ProfileName>().unwrap(),
        ProfileName::Custom(" balanced".into())
    );
}

#[test]
fn profile_fromstr_empty_is_rejected() {
    assert!("".parse::<ProfileName>().is_err());
    assert!("   ".parse::<ProfileName>().is_err());
}

#[test]
fn tdp_preset_display_is_lowercase() {
    assert_eq!(TdpPreset::Eco.to_string(), "eco");
    assert_eq!(TdpPreset::Balanced.to_string(), "balanced");
    assert_eq!(TdpPreset::Max.to_string(), "max");
}

#[test]
fn tdp_preset_roundtrip_display_to_fromstr() {
    for p in [TdpPreset::Eco, TdpPreset::Balanced, TdpPreset::Max] {
        assert_eq!(p.to_string().parse::<TdpPreset>().unwrap(), p);
    }
}

#[test]
fn tdp_preset_fromstr_accepts_case_insensitive() {
    assert_eq!("ECO".parse::<TdpPreset>().unwrap(), TdpPreset::Eco);
    assert_eq!(
        "Balanced".parse::<TdpPreset>().unwrap(),
        TdpPreset::Balanced
    );
    assert_eq!("MAX".parse::<TdpPreset>().unwrap(), TdpPreset::Max);
}

#[test]
fn tdp_preset_fromstr_rejects_legacy_aliases() {
    for legacy in ["silent", "performance", "turbo", "Performance", "Turbo"] {
        let err = legacy.parse::<TdpPreset>().unwrap_err();
        assert!(
            err.contains("eco, balanced, max"),
            "error for '{}' should suggest the new names, got: {}",
            legacy,
            err
        );
    }
}

#[test]
fn thresholds_sanitized_passes_through_valid_values() {
    let t = ProfileThresholds {
        low_frac: single(0.25),
        high_frac: single(0.75),
    };
    assert_eq!(t.clone().sanitized(), t);
}

#[test]
fn thresholds_sanitized_clamps_out_of_range_fractions() {
    let t = ProfileThresholds {
        low_frac: single(-0.5),
        high_frac: single(1.5),
    };
    assert_eq!(
        t.sanitized(),
        ProfileThresholds {
            low_frac: single(0.0),
            high_frac: single(1.0),
        }
    );
}

#[test]
fn thresholds_sanitized_falls_back_to_default_when_inverted() {
    let t = ProfileThresholds {
        low_frac: single(0.9),
        high_frac: single(0.1),
    };
    assert_eq!(t.sanitized(), ProfileThresholds::default());
}

#[test]
fn thresholds_sanitized_falls_back_to_default_on_non_finite() {
    for bad in [f32::NAN, f32::INFINITY, f32::NEG_INFINITY] {
        let t = ProfileThresholds {
            low_frac: single(bad),
            high_frac: single(0.67),
        };
        assert_eq!(t.sanitized(), ProfileThresholds::default());
    }
}

#[test]
fn runtime_config_sanitized_passes_through_valid_factors() {
    let cfg = RuntimeConfig {
        profile_thresholds: ProfileThresholds::default(),
        sppt_factor: single(1.20),
        fppt_factor: single(1.40),
        gpu_clock_fractions: GpuClockFractions::default(),
    };
    assert_eq!(cfg.clone().sanitized(), cfg);
}

#[test]
fn runtime_config_sanitized_replaces_sub_unity_factors() {
    let cfg = RuntimeConfig {
        profile_thresholds: ProfileThresholds::default(),
        sppt_factor: single(0.115),
        fppt_factor: single(0.0),
        gpu_clock_fractions: GpuClockFractions::default(),
    };
    let sanitized = cfg.sanitized();
    assert_eq!(sanitized.sppt_factor, RuntimeConfig::default().sppt_factor);
    assert_eq!(sanitized.fppt_factor, RuntimeConfig::default().fppt_factor);
}

#[test]
fn runtime_config_sanitized_replaces_non_finite_factors() {
    let cfg = RuntimeConfig {
        profile_thresholds: ProfileThresholds::default(),
        sppt_factor: single(f32::NAN),
        fppt_factor: single(f32::INFINITY),
        gpu_clock_fractions: GpuClockFractions::default(),
    };
    let sanitized = cfg.sanitized();
    assert_eq!(sanitized.sppt_factor, RuntimeConfig::default().sppt_factor);
    assert_eq!(sanitized.fppt_factor, RuntimeConfig::default().fppt_factor);
}
