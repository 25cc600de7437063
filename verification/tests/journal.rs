use hpd::asus::charge::AsusChargeBackend;
use hpd::asus::fan_curve::{curve_writes, enable_writes, AsusFanCurveBackend};
use hpd::asus::gpu_clock::{programming_writes, release_writes, AsusGpuClockBackend};
use hpd::asus::power::AsusPowerBackend;
use hpd::asus::profile::AsusProfileBackend;
use hpd::charge::ChargeControl;
use hpd::error::{HpdError, SysfsError};
use hpd::fan_curve::{
    FanCurve, FanCurveControl, FanCurvePoint, FanCurvePreset, FanCurveSelection,
};
use hpd::gpu_clock::{GpuClockRange, GpuClockRangeControl};
use hpd::journal::Journal;
use hpd::platform_profile::PlatformProfile;
use hpd::power::{PowerEnvelope, PowerEnvelopeTarget};
use hpd::profile::ProfileName;
use hpd::sysfs::SysfsIo;
use hpd::units::PowerMilliwatts;
use std::collections::BTreeMap;
use std::sync::Mutex;

/// Attribute files that keep a list of what is written, and refuse some of it.
struct Files {
    contents: BTreeMap<String, String>,
    refused: Mutex<Vec<String>>,
    done: Mutex<Vec<String>>,
}

impl Files {
    fn new(contents: &[(&str, &str)]) -> Self {
        Files {
            contents: contents
                .iter()
                .map(|(path, text)| (path.to_string(), text.to_string()))
                .collect(),
            refused: Mutex::new(Vec::new()),
            done: Mutex::new(Vec::new()),
        }
    }

    /// Refuse the next write of this value.
    fn refuse(self, value: &str) -> Self {
        self.refused.lock().unwrap().push(value.to_string());
        self
    }

    fn done(&self) -> Vec<String> {
        self.done.lock().unwrap().clone()
    }
}

impl SysfsIo for &Files {
    fn read_string(&self, path: &str) -> Result<String, SysfsError> {
        match self.contents.get(path) {
            Some(text) => Ok(text.clone()),
            None => Err(SysfsError::NotFound { path: path.to_string() }),
        }
    }

    fn write_string(&self, path: &str, value: &str) -> Result<(), SysfsError> {
        let leaf = path.rsplit('/').next().unwrap_or_default();
        self.done.lock().unwrap().push(format!("{leaf}={value}"));
        let mut refused = self.refused.lock().unwrap();
        match refused.iter().position(|v| v == value) {
            Some(at) => {
                refused.remove(at);
                Err(SysfsError::PermissionDenied { path: path.to_string() })
            }
            None => Ok(()),
        }
    }

    fn path_exists(&self, path: &str) -> bool {
        self.contents.contains_key(path)
    }

    fn read_dir_names(&self, _path: &str) -> Vec<String> {
        Vec::new()
    }

    fn settle(&self, millis: u64) {
        self.done.lock().unwrap().push(format!("wait {millis}"));
    }
}

const TABLE: &str =
    "OD_SCLK:\n0:        800Mhz\n1:       1800Mhz\nOD_RANGE:\nSCLK:     600Mhz       2900Mhz\n";

fn gpu(level: &str) -> Files {
    Files::new(&[
        ("/sys/class/hwmon/hwmon5/name", "amdgpu"),
        ("/sys/class/hwmon/hwmon5/device/power_dpm_force_performance_level", level),
        ("/sys/class/hwmon/hwmon5/device/pp_od_clk_voltage", TABLE),
    ])
}

fn range(min_mhz: u32, max_mhz: u32) -> GpuClockRange {
    GpuClockRange { min_mhz, max_mhz }
}

#[test]
fn a_range_is_committed_after_both_bounds() {
    let files = gpu("auto");
    assert!(AsusGpuClockBackend::new(&files).set_range(&range(800, 1800)).is_ok());
    assert_eq!(
        files.done(),
        [
            "power_dpm_force_performance_level=manual",
            "pp_od_clk_voltage=s 0 800",
            "pp_od_clk_voltage=s 1 1800",
            "pp_od_clk_voltage=c",
        ]
    );
    let writes = programming_writes("/b", " manual\n", &range(1, 2));
    let values: Vec<&str> = writes.iter().map(|w| w.1.as_str()).collect();
    assert_eq!(values, ["s 0 1", "s 1 2", "c"]);
    assert_eq!(writes[0].0, "/b/device/pp_od_clk_voltage");
}

#[test]
fn a_refused_range_writes_nothing() {
    let files = gpu("auto");
    assert!(matches!(
        AsusGpuClockBackend::new(&files).set_range(&range(600, 3200)),
        Err(HpdError::InvariantViolation(_))
    ));
    assert!(files.done().is_empty());
}

#[test]
fn a_range_that_fails_is_released_after_the_first_failure() {
    let files = gpu("manual").refuse("s 1 1800");
    assert!(AsusGpuClockBackend::new(&files).set_range(&range(800, 1800)).is_err());
    assert_eq!(
        files.done(),
        [
            "pp_od_clk_voltage=s 0 800",
            "pp_od_clk_voltage=s 1 1800",
            "pp_od_clk_voltage=r",
            "power_dpm_force_performance_level=auto",
        ]
    );
    assert_eq!(release_writes("/b")[1].1, "auto");
}

fn falling() -> FanCurve {
    let mut points = [FanCurvePoint::new(50, 100); 8];
    points[7] = FanCurvePoint::new(40, 100);
    FanCurve::new(points)
}

#[test]
fn the_fans_are_switched_after_every_point() {
    let files = Files::new(&[("/sys/class/hwmon/hwmon1/name", "asus_custom_fan_curve")]);
    let backend = AsusFanCurveBackend::new(&files);
    // The points are not there to be read back, so the call fails in the end.
    assert!(backend
        .apply(&FanCurveSelection::Preset(FanCurvePreset::Balanced))
        .is_err());
    let done = files.done();
    assert_eq!(done.len(), 34);
    assert!(done[0].starts_with("pwm1_auto_point1_temp="));
    assert!(done[1].starts_with("pwm1_auto_point1_pwm="));
    assert!(done[31].starts_with("pwm2_auto_point8_pwm="));
    assert_eq!(done[32..], ["pwm1_enable=1", "pwm2_enable=1"]);
}

#[test]
fn a_falling_curve_asks_nothing() {
    let files = Files::new(&[("/sys/class/hwmon/hwmon1/name", "asus_custom_fan_curve")]);
    let backend = AsusFanCurveBackend::new(&files);
    let selection = FanCurveSelection::Custom { cpu: falling(), gpu: falling() };
    assert!(matches!(
        backend.apply(&selection),
        Err(HpdError::InvariantViolation(_))
    ));
    assert!(files.done().is_empty());
    assert!(backend.reset_to_auto().is_ok());
    assert_eq!(files.done(), ["pwm1_enable=2", "pwm2_enable=2"]);
}

#[test]
fn the_writes_of_curves_are_in_order() {
    let curve = FanCurve::new([FanCurvePoint::new(30, 7); 8]);
    let writes = curve_writes("/b", &curve, &curve);
    assert_eq!(writes.len(), 34);
    assert_eq!(writes[2], ("/b/pwm1_auto_point2_temp".to_string(), "30".to_string()));
    assert_eq!(writes[17], ("/b/pwm2_auto_point1_pwm".to_string(), "7".to_string()));
    assert_eq!(writes[33], ("/b/pwm2_enable".to_string(), "1".to_string()));
    assert_eq!(enable_writes("/b", "2")[0], ("/b/pwm1_enable".to_string(), "2".to_string()));
}

#[test]
fn the_rails_are_written_in_order_with_one_more_try() {
    let files = Files::new(&[]).refuse("17");
    let target = PowerEnvelopeTarget {
        spl: PowerMilliwatts(15_000),
        sppt: PowerMilliwatts(17_000),
        fppt: Some(PowerMilliwatts(19_000)),
    };
    assert!(AsusPowerBackend::new(&files).set_target(&target).is_ok());
    assert_eq!(
        files.done(),
        [
            "current_value=15",
            "current_value=17",
            "wait 75",
            "current_value=17",
            "current_value=19",
        ]
    );
    let files = Files::new(&[]).refuse("15");
    assert!(AsusPowerBackend::new(&files).set_target(&target).is_err());
    assert_eq!(files.done(), ["current_value=15"]);
}

#[test]
fn a_charge_limit_or_a_profile_is_one_write() {
    let files = Files::new(&[(
        "/sys/firmware/acpi/platform_profile_choices",
        "low-power balanced performance",
    )]);
    assert!(AsusChargeBackend::new(&files).set_end_threshold(19).is_err());
    assert!(files.done().is_empty());
    assert!(AsusChargeBackend::new(&files).set_end_threshold(60).is_ok());
    assert!(AsusProfileBackend::new(&files)
        .set_active_profile(&ProfileName::PowerSaver)
        .is_ok());
    assert_eq!(
        files.done(),
        ["charge_control_end_threshold=60", "platform_profile=low-power"]
    );
}

#[test]
fn writes_end_at_the_first_that_fails() {
    let files = Files::new(&[]).refuse("2");
    let handle = &files;
    let mut journal = Journal::new(&handle);
    let writes: Vec<(String, String)> = ["1", "2", "3"]
        .iter()
        .map(|value| ("/a".to_string(), value.to_string()))
        .collect();
    assert!(matches!(
        journal.write_all(&writes),
        Err(HpdError::Sysfs(SysfsError::PermissionDenied { .. }))
    ));
    assert_eq!(files.done(), ["a=1", "a=2"]);
    assert!(journal.read("/a").is_err());
    assert!(journal.write_all(&Vec::new()).is_ok());
}
