use hpd::asus::charge::AsusChargeBackend;
use hpd::asus::fan::{AsusFanBackend, FAN_CPU, FAN_GPU};
use hpd::asus::fan_curve::{preset_curves, AsusFanCurveBackend, ENABLE_AUTO, ENABLE_CUSTOM};
use hpd::asus::gpu_clock::AsusGpuClockBackend;
use hpd::asus::hwmon::{find_hwmon_by_name, HwmonCache};
use hpd::asus::power::AsusPowerBackend;
use hpd::asus::power_supply::find_node_by_type;
use hpd::asus::telemetry::AsusTelemetryBackend;
use hpd::asus::thermal::AsusThermalBackend;
use hpd::charge::ChargeControl;
use hpd::error::{HpdError, SysfsError};
use hpd::fan::FanControl;
use hpd::fan_curve::{
    FanCurveControl, FanCurvePoint, FanCurvePreset, FanCurveSelection, FAN_CURVE_POINTS,
};
use hpd::gpu_clock::{GpuClockRange, GpuClockRangeControl};
use hpd::power::{PowerEnvelope, PowerEnvelopeTarget};
use hpd::sysfs::SysfsIo;
use hpd::telemetry::SystemTelemetry;
use hpd::thermal::ThermalSensors;
use hpd::units::{Celsius, PowerMilliwatts, Rpm};
use std::collections::BTreeMap;
use std::sync::atomic::{AtomicUsize, Ordering};
use std::sync::{Arc, Mutex};

/// Attribute files held in memory. Clones share the files.
#[derive(Clone)]
struct MockSysfs {
    files: Arc<Mutex<BTreeMap<String, String>>>,
}

impl MockSysfs {
    fn new() -> Self {
        MockSysfs { files: Arc::new(Mutex::new(BTreeMap::new())) }
    }

    fn create_file(&self, path: impl Into<String>, content: &str) {
        let path = format!("/{}", path.into());
        self.files.lock().unwrap().insert(path, content.to_string());
    }

    fn remove_path(&self, path: &str) {
        let root = format!("/{path}");
        self.files
            .lock()
            .unwrap()
            .retain(|file, _| !file.starts_with(&root));
    }
}

impl SysfsIo for MockSysfs {
    fn read_string(&self, path: &str) -> Result<String, SysfsError> {
        match self.files.lock().unwrap().get(path) {
            Some(content) => Ok(content.clone()),
            None => Err(SysfsError::NotFound { path: path.to_string() }),
        }
    }

    fn write_string(&self, path: &str, value: &str) -> Result<(), SysfsError> {
        self.files
            .lock()
            .unwrap()
            .insert(path.to_string(), value.to_string());
        Ok(())
    }

    fn path_exists(&self, path: &str) -> bool {
        let inside = format!("{path}/");
        self.files
            .lock()
            .unwrap()
            .keys()
            .any(|file| file == path || file.starts_with(&inside))
    }

    fn read_dir_names(&self, path: &str) -> Vec<String> {
        let inside = format!("{path}/");
        let mut names: Vec<String> = Vec::new();
        for file in self.files.lock().unwrap().keys() {
            if let Some(rest) = file.strip_prefix(&inside) {
                let name = rest.split('/').next().unwrap_or_default().to_string();
                if !names.contains(&name) {
                    names.push(name);
                }
            }
        }
        names
    }
}

#[test]
fn detects_ac0_node_on_xbox_ally_x() {
    let mock = MockSysfs::new();
    mock.create_file("sys/class/power_supply/AC0/type", "Mains");
    mock.create_file("sys/class/power_supply/AC0/online", "1");
    let backend = AsusChargeBackend::new(mock.clone());
    assert!(
        backend.is_ac_connected().unwrap(),
        "a Mains node with online == 1 must read as plugged"
    );
}

#[test]
fn ac_unplugged_reads_false() {
    let mock = MockSysfs::new();
    mock.create_file("sys/class/power_supply/AC0/type", "Mains");
    mock.create_file("sys/class/power_supply/AC0/online", "0");
    let backend = AsusChargeBackend::new(mock.clone());
    assert!(!backend.is_ac_connected().unwrap());
}

#[test]
fn missing_ac_node_falls_back_to_dc() {
    let mock = MockSysfs::new();
    let backend = AsusChargeBackend::new(mock.clone());
    assert!(
        !backend.is_ac_connected().unwrap(),
        "absent mains node must fail safe to DC"
    );
}

#[test]
fn usb_c_pd_node_is_not_mistaken_for_mains() {
    let mock = MockSysfs::new();
    mock.create_file(
        "sys/class/power_supply/ucsi-source-psy-USBC000:002/type",
        "USB",
    );
    mock.create_file(
        "sys/class/power_supply/ucsi-source-psy-USBC000:002/online",
        "1",
    );
    let backend = AsusChargeBackend::new(mock.clone());
    assert!(
        !backend.is_ac_connected().unwrap(),
        "a USB (non-Mains) node reporting online=1 must not count as AC"
    );
}

#[test]
fn one_offline_mains_node_among_several_does_not_shadow_an_online_one() {
    let mock = MockSysfs::new();
    mock.create_file("sys/class/power_supply/AC0/type", "Mains");
    mock.create_file("sys/class/power_supply/AC0/online", "0");
    mock.create_file("sys/class/power_supply/AC1/type", "Mains");
    mock.create_file("sys/class/power_supply/AC1/online", "1");
    let backend = AsusChargeBackend::new(mock.clone());
    assert!(backend.is_ac_connected().unwrap());
}

#[test]
fn reads_asus_node_not_acpi_fan_shadow() {
    let mock = MockSysfs::new();
    mock.create_file("sys/class/hwmon/hwmon1/name", "acpi_fan");
    mock.create_file("sys/class/hwmon/hwmon1/fan1_input", "9999");
    mock.create_file("sys/class/hwmon/hwmon7/name", "asus");
    mock.create_file("sys/class/hwmon/hwmon7/fan1_input", "6400");
    mock.create_file("sys/class/hwmon/hwmon7/fan2_input", "6500");

    let backend = AsusFanBackend::new(mock.clone());
    assert_eq!(backend.get_cpu_fan_rpm().unwrap(), Rpm(6400));
    assert_eq!(backend.get_gpu_fan_rpm().unwrap(), Some(Rpm(6500)));
}

#[test]
fn single_fan_model_reports_no_gpu_fan() {
    let mock = MockSysfs::new();
    mock.create_file("sys/class/hwmon/hwmon3/name", "asus");
    mock.create_file("sys/class/hwmon/hwmon3/fan1_input", "4200");

    let backend = AsusFanBackend::new(mock.clone());
    assert_eq!(backend.get_cpu_fan_rpm().unwrap(), Rpm(4200));
    assert_eq!(backend.get_gpu_fan_rpm().unwrap(), None);
}

fn seed_curve_node(mock: &MockSysfs) {
    mock.create_file("sys/class/hwmon/hwmon8/name", "asus_custom_fan_curve");
    for fan in [FAN_CPU, FAN_GPU] {
        mock.create_file(format!("sys/class/hwmon/hwmon8/pwm{fan}_enable"), "2");
        for point in 1..=FAN_CURVE_POINTS {
            mock.create_file(
                format!("sys/class/hwmon/hwmon8/pwm{fan}_auto_point{point}_temp"),
                "0",
            );
            mock.create_file(
                format!("sys/class/hwmon/hwmon8/pwm{fan}_auto_point{point}_pwm"),
                "0",
            );
        }
    }
}

#[test]
fn apply_preset_writes_points_and_enables_custom() {
    let mock = MockSysfs::new();
    seed_curve_node(&mock);
    let backend = AsusFanCurveBackend::new(mock.clone());

    backend
        .apply(&FanCurveSelection::Preset(FanCurvePreset::Balanced))
        .expect("apply must succeed");

    assert_eq!(
        mock.read_string("/sys/class/hwmon/hwmon8/pwm1_auto_point8_temp")
            .unwrap(),
        "92"
    );
    assert_eq!(
        mock.read_string("/sys/class/hwmon/hwmon8/pwm1_auto_point8_pwm")
            .unwrap(),
        "255"
    );
    assert_eq!(
        mock.read_string("/sys/class/hwmon/hwmon8/pwm1_enable")
            .unwrap(),
        ENABLE_CUSTOM
    );
    assert_eq!(
        mock.read_string("/sys/class/hwmon/hwmon8/pwm2_enable")
            .unwrap(),
        ENABLE_CUSTOM
    );
}

#[test]
fn get_curves_reads_back_what_apply_wrote() {
    let mock = MockSysfs::new();
    seed_curve_node(&mock);
    let backend = AsusFanCurveBackend::new(mock.clone());

    backend
        .apply(&FanCurveSelection::Preset(FanCurvePreset::Aggressive))
        .expect("apply must succeed");

    let active = backend.get_curves().expect("read-back must succeed");
    assert_eq!(active.cpu, preset_curves(FanCurvePreset::Aggressive).0);
    assert_eq!(active.gpu, preset_curves(FanCurvePreset::Aggressive).1);
}

#[test]
fn custom_selection_is_validated() {
    let mock = MockSysfs::new();
    seed_curve_node(&mock);
    let backend = AsusFanCurveBackend::new(mock.clone());

    let (balanced, _) = preset_curves(FanCurvePreset::Balanced);
    let mut bad = balanced;
    bad.points[4] = FanCurvePoint::new(10, 140);
    let err = backend.apply(&FanCurveSelection::Custom {
        cpu: bad,
        gpu: balanced,
    });
    assert!(err.is_err());
}

#[test]
fn reset_to_auto_sets_enable_two() {
    let mock = MockSysfs::new();
    seed_curve_node(&mock);
    let backend = AsusFanCurveBackend::new(mock.clone());

    backend
        .apply(&FanCurveSelection::Preset(FanCurvePreset::Silent))
        .unwrap();
    backend.reset_to_auto().expect("reset must succeed");

    assert_eq!(
        mock.read_string("/sys/class/hwmon/hwmon8/pwm1_enable")
            .unwrap(),
        ENABLE_AUTO
    );
    assert_eq!(
        mock.read_string("/sys/class/hwmon/hwmon8/pwm2_enable")
            .unwrap(),
        ENABLE_AUTO
    );
}

#[test]
fn missing_curve_node_is_feature_unsupported() {
    let mock = MockSysfs::new();
    let backend = AsusFanCurveBackend::new(mock.clone());
    assert!(matches!(
        backend.apply(&FanCurveSelection::Preset(FanCurvePreset::Balanced)),
        Err(HpdError::FeatureUnsupported)
    ));
}

fn seed_gpu_node(mock: &MockSysfs) {
    mock.create_file("sys/class/hwmon/hwmon5/name", "amdgpu");
    mock.create_file(
        "sys/class/hwmon/hwmon5/device/power_dpm_force_performance_level",
        "auto",
    );
    mock.create_file(
        "sys/class/hwmon/hwmon5/device/pp_od_clk_voltage",
        "OD_SCLK:\n0:        600Mhz\n1:       2900Mhz\nOD_RANGE:\nSCLK:     600Mhz       2900Mhz\n",
    );
}

fn od_path() -> &'static str {
    "/sys/class/hwmon/hwmon5/device/pp_od_clk_voltage"
}

fn force_level_path() -> &'static str {
    "/sys/class/hwmon/hwmon5/device/power_dpm_force_performance_level"
}

fn simulate_committed(mock: &MockSysfs, min_mhz: u32, max_mhz: u32) {
    mock.write_string(
        od_path(),
        &format!(
            "OD_SCLK:\n0:        {min_mhz}Mhz\n1:       {max_mhz}Mhz\nOD_RANGE:\nSCLK:     600Mhz       2900Mhz\n"
        ),
    )
    .unwrap();
}

#[test]
fn constraints_reads_od_range() {
    let mock = MockSysfs::new();
    seed_gpu_node(&mock);
    let backend = AsusGpuClockBackend::new(mock.clone());
    let c = backend.constraints().unwrap();
    assert_eq!(c.range_min_mhz, 600);
    assert_eq!(c.range_max_mhz, 2900);
}

#[test]
fn active_range_is_none_in_auto_mode() {
    let mock = MockSysfs::new();
    seed_gpu_node(&mock);
    let backend = AsusGpuClockBackend::new(mock.clone());
    assert_eq!(backend.active_range().unwrap(), None);
}

#[test]
fn missing_gpu_node_is_feature_unsupported() {
    let mock = MockSysfs::new();
    let backend = AsusGpuClockBackend::new(mock.clone());
    assert!(matches!(
        backend.constraints(),
        Err(HpdError::FeatureUnsupported)
    ));
}

#[test]
fn set_range_rejects_out_of_bounds_before_any_write() {
    let mock = MockSysfs::new();
    seed_gpu_node(&mock);
    let backend = AsusGpuClockBackend::new(mock.clone());

    let bad = GpuClockRange {
        min_mhz: 600,
        max_mhz: 3200,
    };
    assert!(backend.set_range(&bad).is_err());
    assert_eq!(mock.read_string(force_level_path()).unwrap(), "auto");
}

#[test]
fn set_range_fails_closed_and_resets_to_auto_when_the_readback_does_not_match() {
    let mock = MockSysfs::new();
    seed_gpu_node(&mock);
    let backend = AsusGpuClockBackend::new(mock.clone());

    let range = GpuClockRange {
        min_mhz: 800,
        max_mhz: 1800,
    };
    assert!(backend.set_range(&range).is_err());
    assert_eq!(mock.read_string(force_level_path()).unwrap(), "auto");
}

#[test]
fn reset_to_auto_writes_r_then_auto() {
    let mock = MockSysfs::new();
    seed_gpu_node(&mock);
    mock.write_string(force_level_path(), "manual").unwrap();
    let backend = AsusGpuClockBackend::new(mock.clone());

    backend.reset_to_auto().unwrap();
    assert_eq!(mock.read_string(force_level_path()).unwrap(), "auto");
}

#[test]
fn active_range_reports_custom_when_manual_and_committed() {
    let mock = MockSysfs::new();
    seed_gpu_node(&mock);
    mock.write_string(force_level_path(), "manual").unwrap();
    simulate_committed(&mock, 700, 2200);
    let backend = AsusGpuClockBackend::new(mock.clone());

    assert_eq!(
        backend.active_range().unwrap(),
        Some(GpuClockRange {
            min_mhz: 700,
            max_mhz: 2200
        })
    );
}

#[test]
fn finds_node_by_name_not_index() {
    let mock = MockSysfs::new();
    mock.create_file("sys/class/hwmon/hwmon1/name", "acpi_fan");
    mock.create_file("sys/class/hwmon/hwmon7/name", "asus");
    mock.create_file("sys/class/hwmon/hwmon8/name", "asus_custom_fan_curve");

    assert_eq!(
        find_hwmon_by_name(&mock, "asus"),
        Some("/sys/class/hwmon/hwmon7".to_string())
    );
    assert_eq!(
        find_hwmon_by_name(&mock, "asus_custom_fan_curve"),
        Some("/sys/class/hwmon/hwmon8".to_string())
    );
    assert_eq!(find_hwmon_by_name(&mock, "nonexistent"), None);
}

#[test]
fn cached_path_reflects_live_value_changes() {
    let mock = MockSysfs::new();
    mock.create_file("sys/class/hwmon/hwmon5/name", "amdgpu");
    mock.create_file("sys/class/hwmon/hwmon5/temp1_input", "72000");

    let cache = HwmonCache::new();
    assert_eq!(
        cache.read_attr(&mock, "amdgpu", "temp1_input").unwrap(),
        Some("72000".to_string())
    );

    mock.create_file("sys/class/hwmon/hwmon5/temp1_input", "65000");
    assert_eq!(
        cache.read_attr(&mock, "amdgpu", "temp1_input").unwrap(),
        Some("65000".to_string())
    );
}

#[test]
fn stale_cached_path_invalidates_and_rescans() {
    let mock = MockSysfs::new();
    mock.create_file("sys/class/hwmon/hwmon5/name", "amdgpu");
    mock.create_file("sys/class/hwmon/hwmon5/temp1_input", "72000");

    let cache = HwmonCache::new();
    assert_eq!(
        cache.read_attr(&mock, "amdgpu", "temp1_input").unwrap(),
        Some("72000".to_string())
    );

    mock.remove_path("sys/class/hwmon/hwmon5");
    mock.create_file("sys/class/hwmon/hwmon9/name", "amdgpu");
    mock.create_file("sys/class/hwmon/hwmon9/temp1_input", "65000");

    assert_eq!(
        cache.read_attr(&mock, "amdgpu", "temp1_input").unwrap(),
        Some("65000".to_string()),
        "a read failure against a cached path must invalidate and rescan"
    );
}

#[test]
fn absent_node_reads_as_none_without_poisoning_the_cache() {
    let mock = MockSysfs::new();
    let cache = HwmonCache::new();
    assert_eq!(
        cache.read_attr(&mock, "amdgpu", "temp1_input").unwrap(),
        None
    );

    mock.create_file("sys/class/hwmon/hwmon2/name", "amdgpu");
    mock.create_file("sys/class/hwmon/hwmon2/temp1_input", "50000");
    assert_eq!(
        cache.read_attr(&mock, "amdgpu", "temp1_input").unwrap(),
        Some("50000".to_string())
    );
}

struct FlakySysfs {
    inner: MockSysfs,
    fail_path_substr: &'static str,
    remaining_failures: AtomicUsize,
}

impl FlakySysfs {
    fn new(
        inner: MockSysfs,
        fail_path_substr: &'static str,
        remaining_failures: usize,
    ) -> Self {
        Self {
            inner,
            fail_path_substr,
            remaining_failures: AtomicUsize::new(remaining_failures),
        }
    }
}

impl SysfsIo for FlakySysfs {
    fn read_string(&self, path: &str) -> Result<String, SysfsError> {
        self.inner.read_string(path)
    }

    fn write_string(&self, path: &str, value: &str) -> Result<(), SysfsError> {
        let fails = path.contains(self.fail_path_substr)
            && self
                .remaining_failures
                .fetch_update(Ordering::SeqCst, Ordering::SeqCst, |n| n.checked_sub(1))
                .is_ok();
        if fails {
            return Err(SysfsError::Io {
                path: path.to_string(),
                source: std::io::Error::from_raw_os_error(22),
            });
        }
        self.inner.write_string(path, value)
    }

    fn path_exists(&self, path: &str) -> bool {
        self.inner.path_exists(path)
    }

    fn read_dir_names(&self, path: &str) -> Vec<String> {
        self.inner.read_dir_names(path)
    }
}

#[test]
fn test_asus_power_translation_mw_to_watts() {
    let mock = MockSysfs::new();

    mock.create_file(
        "sys/class/firmware-attributes/asus-armoury/attributes/ppt_pl1_spl/current_value",
        "15",
    );
    mock.create_file(
        "sys/class/firmware-attributes/asus-armoury/attributes/ppt_pl2_sppt/current_value",
        "15",
    );
    mock.create_file(
        "sys/class/firmware-attributes/asus-armoury/attributes/ppt_pl3_fppt/current_value",
        "15",
    );
    mock.create_file(
        "sys/class/firmware-attributes/asus-armoury/attributes/ppt_pl1_spl/min_value",
        "7",
    );
    mock.create_file(
        "sys/class/firmware-attributes/asus-armoury/attributes/ppt_pl1_spl/max_value",
        "35",
    );
    mock.create_file(
        "sys/class/firmware-attributes/asus-armoury/attributes/ppt_pl2_sppt/max_value",
        "43",
    );
    mock.create_file(
        "sys/class/firmware-attributes/asus-armoury/attributes/ppt_pl3_fppt/max_value",
        "55",
    );

    let backend = AsusPowerBackend::new(mock.clone());

    let target = backend.get_target().expect("Must be able to read target");
    assert_eq!(target.spl, PowerMilliwatts(15000));
    assert_eq!(target.sppt, PowerMilliwatts(15000));

    let limits = backend
        .get_limits()
        .expect("Must be able to read the limits");
    assert_eq!(limits.spl_min, PowerMilliwatts(7000));
    assert_eq!(limits.spl_max, PowerMilliwatts(35000));
    assert_eq!(limits.sppt_max, PowerMilliwatts(43000));
    assert_eq!(limits.fppt_max, PowerMilliwatts(55000));
    assert_eq!(limits.sppt_min, PowerMilliwatts(13000));
    assert_eq!(limits.fppt_min, PowerMilliwatts(19000));

    let new_target = PowerEnvelopeTarget {
        spl: PowerMilliwatts(20000),
        sppt: PowerMilliwatts(25000),
        fppt: Some(PowerMilliwatts(30000)),
    };

    backend
        .set_target(&new_target)
        .expect("Must be able to write the target");

    let spl_written = mock
        .read_string(
            "/sys/class/firmware-attributes/asus-armoury/attributes/ppt_pl1_spl/current_value",
        )
        .unwrap();
    let sppt_written = mock
        .read_string(
            "/sys/class/firmware-attributes/asus-armoury/attributes/ppt_pl2_sppt/current_value",
        )
        .unwrap();

    assert_eq!(spl_written, "20", "20000mW must translate to string '20'");
    assert_eq!(sppt_written, "25", "25000mW must translate to string '25'");
}

#[test]
fn get_limits_reads_sppt_fppt_min_value_when_present() {
    let mock = MockSysfs::new();
    mock.create_file(
        "sys/class/firmware-attributes/asus-armoury/attributes/ppt_pl1_spl/min_value",
        "7",
    );
    mock.create_file(
        "sys/class/firmware-attributes/asus-armoury/attributes/ppt_pl1_spl/max_value",
        "35",
    );
    mock.create_file(
        "sys/class/firmware-attributes/asus-armoury/attributes/ppt_pl2_sppt/min_value",
        "13",
    );
    mock.create_file(
        "sys/class/firmware-attributes/asus-armoury/attributes/ppt_pl2_sppt/max_value",
        "45",
    );
    mock.create_file(
        "sys/class/firmware-attributes/asus-armoury/attributes/ppt_pl3_fppt/min_value",
        "19",
    );
    mock.create_file(
        "sys/class/firmware-attributes/asus-armoury/attributes/ppt_pl3_fppt/max_value",
        "55",
    );

    let backend = AsusPowerBackend::new(mock);
    let limits = backend.get_limits().expect("must read limits");

    assert_eq!(limits.spl_min, PowerMilliwatts(7_000));
    assert_eq!(limits.sppt_min, PowerMilliwatts(13_000));
    assert_eq!(limits.sppt_max, PowerMilliwatts(45_000));
    assert_eq!(limits.fppt_min, PowerMilliwatts(19_000));
    assert_eq!(limits.fppt_max, PowerMilliwatts(55_000));
}

#[test]
fn set_target_recovers_from_a_single_transient_sppt_write_failure() {
    let mock = MockSysfs::new();
    mock.create_file(
        "sys/class/firmware-attributes/asus-armoury/attributes/ppt_pl1_spl/current_value",
        "12",
    );
    mock.create_file(
        "sys/class/firmware-attributes/asus-armoury/attributes/ppt_pl2_sppt/current_value",
        "13",
    );
    mock.create_file(
        "sys/class/firmware-attributes/asus-armoury/attributes/ppt_pl3_fppt/current_value",
        "19",
    );

    let flaky = FlakySysfs::new(mock.clone(), "ppt_pl2_sppt", 1);
    let backend = AsusPowerBackend::new(flaky);

    let target = PowerEnvelopeTarget {
        spl: PowerMilliwatts(35_000),
        sppt: PowerMilliwatts(40_000),
        fppt: Some(PowerMilliwatts(43_000)),
    };

    backend
        .set_target(&target)
        .expect("a single transient SPPT failure must be recovered by the retry");

    let sppt_written = mock
        .read_string(
            "/sys/class/firmware-attributes/asus-armoury/attributes/ppt_pl2_sppt/current_value",
        )
        .unwrap();
    assert_eq!(sppt_written, "40");
}

#[test]
fn set_target_propagates_error_when_sppt_write_fails_twice() {
    let mock = MockSysfs::new();
    mock.create_file(
        "sys/class/firmware-attributes/asus-armoury/attributes/ppt_pl1_spl/current_value",
        "12",
    );
    mock.create_file(
        "sys/class/firmware-attributes/asus-armoury/attributes/ppt_pl2_sppt/current_value",
        "13",
    );
    mock.create_file(
        "sys/class/firmware-attributes/asus-armoury/attributes/ppt_pl3_fppt/current_value",
        "19",
    );

    let flaky = FlakySysfs::new(mock, "ppt_pl2_sppt", 2);
    let backend = AsusPowerBackend::new(flaky);

    let target = PowerEnvelopeTarget {
        spl: PowerMilliwatts(35_000),
        sppt: PowerMilliwatts(40_000),
        fppt: Some(PowerMilliwatts(43_000)),
    };

    let result = backend.set_target(&target);
    assert!(
        result.is_err(),
        "a second consecutive failure must propagate"
    );
}

#[test]
fn finds_node_by_type_regardless_of_name() {
    let mock = MockSysfs::new();
    mock.create_file("sys/class/power_supply/AC0/type", "Mains");
    mock.create_file("sys/class/power_supply/BAT1/type", "Battery");

    assert_eq!(
        find_node_by_type(&mock, "Mains"),
        Some("/sys/class/power_supply/AC0".to_string())
    );
    assert_eq!(
        find_node_by_type(&mock, "Battery"),
        Some("/sys/class/power_supply/BAT1".to_string())
    );
    assert_eq!(find_node_by_type(&mock, "USB"), None);
}

#[test]
fn no_nodes_returns_none() {
    let mock = MockSysfs::new();
    assert_eq!(find_node_by_type(&mock, "Battery"), None);
}

fn seed_battery(mock: &MockSysfs) {
    mock.create_file("sys/class/power_supply/BAT0/type", "Battery");
}

fn seed_amdgpu(mock: &MockSysfs) {
    mock.create_file("sys/class/hwmon/hwmon5/name", "amdgpu");
}

#[test]
fn battery_power_reads_power_now_while_discharging() {
    let mock = MockSysfs::new();
    seed_battery(&mock);
    mock.create_file("sys/class/power_supply/BAT0/status", "Discharging");
    mock.create_file("sys/class/power_supply/BAT0/power_now", "18300000");

    let backend = AsusTelemetryBackend::new(mock.clone());
    assert_eq!(
        backend.get_battery_power().unwrap(),
        Some(PowerMilliwatts(18300))
    );
}

#[test]
fn battery_power_falls_back_to_current_times_voltage() {
    let mock = MockSysfs::new();
    seed_battery(&mock);
    mock.create_file("sys/class/power_supply/BAT0/status", "Discharging");
    mock.create_file("sys/class/power_supply/BAT0/current_now", "1000000");
    mock.create_file("sys/class/power_supply/BAT0/voltage_now", "15000000");

    let backend = AsusTelemetryBackend::new(mock.clone());
    assert_eq!(
        backend.get_battery_power().unwrap(),
        Some(PowerMilliwatts(15000))
    );
}

#[test]
fn battery_power_is_none_while_charging() {
    let mock = MockSysfs::new();
    seed_battery(&mock);
    mock.create_file("sys/class/power_supply/BAT0/status", "Charging");
    mock.create_file("sys/class/power_supply/BAT0/power_now", "9000000");

    let backend = AsusTelemetryBackend::new(mock.clone());
    assert_eq!(backend.get_battery_power().unwrap(), None);
}

#[test]
fn battery_fields_absent_without_a_battery_node() {
    let mock = MockSysfs::new();
    let backend = AsusTelemetryBackend::new(mock.clone());
    assert_eq!(backend.get_battery_power().unwrap(), None);
    assert_eq!(backend.get_battery_percent().unwrap(), None);
    assert_eq!(backend.get_battery_status().unwrap(), None);
    assert_eq!(backend.get_battery_health_pct().unwrap(), None);
    assert_eq!(backend.get_battery_cycles().unwrap(), None);
}

#[test]
fn battery_percent_status_health_and_cycles() {
    let mock = MockSysfs::new();
    seed_battery(&mock);
    mock.create_file("sys/class/power_supply/BAT0/capacity", "64");
    mock.create_file("sys/class/power_supply/BAT0/status", "Discharging");
    mock.create_file("sys/class/power_supply/BAT0/charge_full", "87000");
    mock.create_file("sys/class/power_supply/BAT0/charge_full_design", "100000");
    mock.create_file("sys/class/power_supply/BAT0/cycle_count", "214");

    let backend = AsusTelemetryBackend::new(mock.clone());
    assert_eq!(backend.get_battery_percent().unwrap(), Some(64));
    assert_eq!(
        backend.get_battery_status().unwrap(),
        Some("Discharging".to_string())
    );
    assert_eq!(backend.get_battery_health_pct().unwrap(), Some(87));
    assert_eq!(backend.get_battery_cycles().unwrap(), Some(214));
}

#[test]
fn battery_health_falls_back_to_energy_pair() {
    let mock = MockSysfs::new();
    seed_battery(&mock);
    mock.create_file("sys/class/power_supply/BAT0/energy_full", "45000");
    mock.create_file("sys/class/power_supply/BAT0/energy_full_design", "50000");

    let backend = AsusTelemetryBackend::new(mock.clone());
    assert_eq!(backend.get_battery_health_pct().unwrap(), Some(90));
}

#[test]
fn cpu_freq_averages_all_policies() {
    let mock = MockSysfs::new();
    mock.create_file(
        "sys/devices/system/cpu/cpufreq/policy0/scaling_cur_freq",
        "3200000",
    );
    mock.create_file(
        "sys/devices/system/cpu/cpufreq/policy1/scaling_cur_freq",
        "1600000",
    );

    let backend = AsusTelemetryBackend::new(mock.clone());
    assert_eq!(backend.get_cpu_freq_mhz().unwrap(), Some(2400));
}

#[test]
fn cpu_freq_absent_without_cpufreq_tree() {
    let mock = MockSysfs::new();
    let backend = AsusTelemetryBackend::new(mock.clone());
    assert_eq!(backend.get_cpu_freq_mhz().unwrap(), None);
}

#[test]
fn gpu_freq_prefers_hwmon_input() {
    let mock = MockSysfs::new();
    seed_amdgpu(&mock);
    mock.create_file("sys/class/hwmon/hwmon5/freq1_input", "1100000000");

    let backend = AsusTelemetryBackend::new(mock.clone());
    assert_eq!(backend.get_gpu_freq_mhz().unwrap(), Some(1100));
}

#[test]
fn gpu_freq_falls_back_to_active_pp_dpm_sclk_line() {
    let mock = MockSysfs::new();
    seed_amdgpu(&mock);
    mock.create_file(
        "sys/class/hwmon/hwmon5/device/pp_dpm_sclk",
        "0: 200Mhz\n1: 700Mhz\n2: 1100Mhz *\n",
    );

    let backend = AsusTelemetryBackend::new(mock.clone());
    assert_eq!(backend.get_gpu_freq_mhz().unwrap(), Some(1100));
}

#[test]
fn gpu_busy_and_vram() {
    let mock = MockSysfs::new();
    seed_amdgpu(&mock);
    mock.create_file("sys/class/hwmon/hwmon5/device/gpu_busy_percent", "73");
    mock.create_file(
        "sys/class/hwmon/hwmon5/device/mem_info_vram_used",
        "1073741824",
    );
    mock.create_file(
        "sys/class/hwmon/hwmon5/device/mem_info_vram_total",
        "17179869184",
    );

    let backend = AsusTelemetryBackend::new(mock.clone());
    assert_eq!(backend.get_gpu_busy_pct().unwrap(), Some(73));
    assert_eq!(backend.get_vram_used_mb().unwrap(), Some(1024));
    assert_eq!(backend.get_vram_total_mb().unwrap(), Some(16384));
}

#[test]
fn gpu_fields_absent_without_amdgpu_node() {
    let mock = MockSysfs::new();
    let backend = AsusTelemetryBackend::new(mock.clone());
    assert_eq!(backend.get_gpu_freq_mhz().unwrap(), None);
    assert_eq!(backend.get_gpu_busy_pct().unwrap(), None);
    assert_eq!(backend.get_vram_used_mb().unwrap(), None);
    assert_eq!(backend.get_vram_total_mb().unwrap(), None);
}

#[test]
fn gpu_throttle_status_defaults_to_none() {
    let mock = MockSysfs::new();
    seed_amdgpu(&mock);
    let backend = AsusTelemetryBackend::new(mock.clone());
    assert_eq!(backend.get_gpu_throttle_status().unwrap(), None);
}

#[test]
fn reads_cpu_and_gpu_temps_by_name() {
    let mock = MockSysfs::new();
    mock.create_file("sys/class/hwmon/hwmon6/name", "k10temp");
    mock.create_file("sys/class/hwmon/hwmon6/temp1_input", "87125");
    mock.create_file("sys/class/hwmon/hwmon5/name", "amdgpu");
    mock.create_file("sys/class/hwmon/hwmon5/temp1_input", "72000");

    let backend = AsusThermalBackend::new(mock.clone());
    assert_eq!(backend.get_cpu_temp().unwrap(), Some(Celsius(87)));
    assert_eq!(backend.get_gpu_temp().unwrap(), Some(Celsius(72)));
}

#[test]
fn absent_sensor_reports_none() {
    let mock = MockSysfs::new();
    mock.create_file("sys/class/hwmon/hwmon6/name", "k10temp");
    mock.create_file("sys/class/hwmon/hwmon6/temp1_input", "60000");
    let backend = AsusThermalBackend::new(mock.clone());
    assert_eq!(backend.get_cpu_temp().unwrap(), Some(Celsius(60)));
    assert_eq!(backend.get_gpu_temp().unwrap(), None);
    assert_eq!(backend.get_soc_power().unwrap(), None);
}

#[test]
fn reads_soc_power_from_amdgpu_microwatts() {
    let mock = MockSysfs::new();
    mock.create_file("sys/class/hwmon/hwmon5/name", "amdgpu");
    mock.create_file("sys/class/hwmon/hwmon5/temp1_input", "72000");
    mock.create_file("sys/class/hwmon/hwmon5/power1_input", "16088000");
    let backend = AsusThermalBackend::new(mock.clone());
    assert_eq!(
        backend.get_soc_power().unwrap(),
        Some(PowerMilliwatts(16088))
    );
}

#[test]
fn soc_power_none_when_node_lacks_power_input() {
    let mock = MockSysfs::new();
    mock.create_file("sys/class/hwmon/hwmon5/name", "amdgpu");
    mock.create_file("sys/class/hwmon/hwmon5/temp1_input", "72000");
    let backend = AsusThermalBackend::new(mock.clone());
    assert_eq!(backend.get_soc_power().unwrap(), None);
}
