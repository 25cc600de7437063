use hpd::gpu_clock::{GpuClockConstraints, GpuClockRange};

fn sample_constraints() -> GpuClockConstraints {
    GpuClockConstraints {
        range_min_mhz: 600,
        range_max_mhz: 2900,
    }
}

#[test]
fn valid_range_passes() {
    let r = GpuClockRange {
        min_mhz: 600,
        max_mhz: 1600,
    };
    assert!(r.validate_against(&sample_constraints()).is_ok());
}

#[test]
fn range_matching_full_device_bounds_passes() {
    let r = GpuClockRange {
        min_mhz: 600,
        max_mhz: 2900,
    };
    assert!(r.validate_against(&sample_constraints()).is_ok());
}

#[test]
fn inverted_range_is_rejected() {
    let r = GpuClockRange {
        min_mhz: 1600,
        max_mhz: 800,
    };
    assert!(r.validate_against(&sample_constraints()).is_err());
}

#[test]
fn degenerate_equal_range_is_rejected() {
    let r = GpuClockRange {
        min_mhz: 1000,
        max_mhz: 1000,
    };
    assert!(r.validate_against(&sample_constraints()).is_err());
}

#[test]
fn min_below_device_floor_is_rejected() {
    let r = GpuClockRange {
        min_mhz: 200,
        max_mhz: 1600,
    };
    let err = r.validate_against(&sample_constraints()).unwrap_err();
    assert!(err
        .to_string()
        .contains("outside the device's supported range"));
}

#[test]
fn max_above_device_ceiling_is_rejected() {
    let r = GpuClockRange {
        min_mhz: 600,
        max_mhz: 3200,
    };
    assert!(r.validate_against(&sample_constraints()).is_err());
}
