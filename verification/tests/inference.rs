use hpd::fan_curve::FanCurvePreset;
use hpd::gpu_clock::GpuClockConstraints;
use hpd::inference::gpu_clock_range_for_tier;
use hpd::profile::GpuClockFractions;
use hpd::single::Single;

fn single(value: f32) -> Single {
    Single::from_bits(value.to_bits())
}

fn constraints() -> GpuClockConstraints {
    GpuClockConstraints {
        range_min_mhz: 600,
        range_max_mhz: 2900,
    }
}

#[test]
fn silent_tier_uses_silent_fraction() {
    let r = gpu_clock_range_for_tier(
        FanCurvePreset::Silent,
        &constraints(),
        &GpuClockFractions::default(),
    );
    assert_eq!(r.min_mhz, 600);
    assert_eq!(r.max_mhz, 1865);
}

#[test]
fn aggressive_tier_reaches_full_device_ceiling_with_default_fractions() {
    let r = gpu_clock_range_for_tier(
        FanCurvePreset::Aggressive,
        &constraints(),
        &GpuClockFractions::default(),
    );
    assert_eq!(r.max_mhz, constraints().range_max_mhz);
}

#[test]
fn zero_fraction_still_yields_a_strictly_valid_range() {
    let fractions = GpuClockFractions {
        silent_max_frac: single(0.0),
        balanced_max_frac: single(0.0),
        aggressive_max_frac: single(0.0),
    };
    let r = gpu_clock_range_for_tier(FanCurvePreset::Silent, &constraints(), &fractions);
    assert!(r.min_mhz < r.max_mhz);
    assert!(r.validate_against(&constraints()).is_ok());
}

#[test]
fn every_tier_resolves_to_a_range_that_passes_validate_against() {
    for tier in [
        FanCurvePreset::Silent,
        FanCurvePreset::Balanced,
        FanCurvePreset::Aggressive,
    ] {
        let r = gpu_clock_range_for_tier(tier, &constraints(), &GpuClockFractions::default());
        assert!(
            r.validate_against(&constraints()).is_ok(),
            "tier {tier:?} produced an invalid range: {r:?}"
        );
    }
}

#[test]
fn the_highest_clock_rises_with_the_share() {
    let of = |silent: f32, balanced: f32, aggressive: f32| {
        let fractions = GpuClockFractions {
            silent_max_frac: single(silent),
            balanced_max_frac: single(balanced),
            aggressive_max_frac: single(aggressive),
        };
        [
            FanCurvePreset::Silent,
            FanCurvePreset::Balanced,
            FanCurvePreset::Aggressive,
        ]
        .map(|tier| gpu_clock_range_for_tier(tier, &constraints(), &fractions).max_mhz)
    };
    assert_eq!(of(0.0, 0.5, 1.0), [601, 1750, 2900]);
    assert_eq!(of(-0.0, 0.55, 0.75), [601, 1865, 2325]);
    assert_eq!(of(0.3, 0.3, 0.30001), [1290, 1290, 1290]);
}
