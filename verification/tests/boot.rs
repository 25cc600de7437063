use hpd::backend::{HwBackend, PowerHandle};
use hpd::boot::{
    boot_state, config_file, interpret_args, join_path, start, state_file, Invocation,
};
use hpd::charge::ChargeControl;
use hpd::config::DaemonConfig;
use hpd::error::{HpdError, SysfsError};
use hpd::fan_curve::{FanCurvePreset, FanCurveSelection};
use hpd::lenovo::{matches_lenovo_handheld, LenovoModel, LenovoPowerBackend};
use hpd::power::{PowerEnvelope, PowerEnvelopeLimits, PowerEnvelopeTarget};
use hpd::probe::{read_system_dmi, DmiInfo, BOARD_NAME, BOARD_VENDOR};
use hpd::profile::ProfileName;
use hpd::suspend::{on_prepare_for_sleep, reconnects, SessionEnd};
use hpd::sysfs::SysfsIo;
use hpd::transition::Transition;
use hpd::units::PowerMilliwatts;
use hpd::valve::{matches_valve_handheld, ValveModel, ValvePowerBackend};

fn args(words: &[&str]) -> Vec<String> {
    words.iter().map(|w| w.to_string()).collect()
}

#[test]
fn arguments_are_understood() {
    assert!(matches!(interpret_args(&args(&[])), Invocation::Run));
    assert!(matches!(interpret_args(&args(&["x", "--help"])), Invocation::Help));
    assert!(matches!(interpret_args(&args(&["-V", "-h"])), Invocation::Help));
    assert!(matches!(interpret_args(&args(&["--version"])), Invocation::Version));
    assert!(matches!(
        interpret_args(&args(&["--fast", "-x"])),
        Invocation::Unknown(word) if word == "--fast"
    ));
}

#[test]
fn files_lie_where_the_service_manager_says() {
    let config = DaemonConfig::default();
    assert_eq!(config_file(None), "/etc/hpd/config.toml");
    assert_eq!(config_file(Some("/run/hpd")), "/run/hpd/config.toml");
    assert_eq!(state_file(None, &config), "/var/lib/hpd/state.toml");
    assert_eq!(state_file(Some("/srv/"), &config), "/srv/state.toml");
    assert_eq!(join_path("", "a"), "a");
}

/// A device that tells its charge limit and charger, and may tell its envelope.
struct Device {
    target: Option<PowerEnvelopeTarget>,
    plugged: Option<bool>,
}

fn limits() -> PowerEnvelopeLimits {
    PowerEnvelopeLimits {
        spl_min: PowerMilliwatts(7_000),
        spl_max: PowerMilliwatts(35_000),
        sppt_min: PowerMilliwatts(13_000),
        sppt_max: PowerMilliwatts(43_000),
        fppt_min: PowerMilliwatts(19_000),
        fppt_max: PowerMilliwatts(55_000),
    }
}

impl PowerEnvelope for Device {
    fn get_limits(&self) -> Result<PowerEnvelopeLimits, HpdError> {
        Ok(limits())
    }

    fn get_target(&self) -> Result<PowerEnvelopeTarget, HpdError> {
        self.target.ok_or(HpdError::FeatureUnsupported)
    }

    fn set_target(&self, _target: &PowerEnvelopeTarget) -> Result<(), HpdError> {
        Ok(())
    }
}

impl ChargeControl for Device {
    fn is_ac_connected(&self) -> Result<bool, HpdError> {
        self.plugged.ok_or(HpdError::FeatureUnsupported)
    }

    fn set_end_threshold(&self, _threshold: u8) -> Result<(), HpdError> {
        Ok(())
    }

    fn get_end_threshold(&self) -> Result<u8, HpdError> {
        Ok(72)
    }
}

impl HwBackend for Device {
    fn power(&self) -> PowerHandle<'_> {
        PowerHandle(self)
    }

    fn charge(&self) -> Option<&dyn ChargeControl> {
        Some(self)
    }
}

#[test]
fn a_first_start_takes_what_the_hardware_tells() {
    let device = Device { target: None, plugged: Some(true) };
    let config = DaemonConfig::default();
    let state = boot_state(&device, None, &limits(), &config);
    assert_eq!(
        state.power_target,
        PowerEnvelopeTarget {
            spl: PowerMilliwatts(7_000),
            sppt: PowerMilliwatts(7_000),
            fppt: Some(PowerMilliwatts(7_000)),
        }
    );
    assert_eq!(state.active_profile, ProfileName::Performance);
    assert_eq!(state.charge_end_threshold, 72);
    assert_eq!(
        state.active_fan_curve,
        Some(FanCurveSelection::Preset(FanCurvePreset::Balanced))
    );
    assert!(state.is_ac_connected);
    assert!(state.fan_follows_tdp);
    assert!(state.ac_max_performance);
    assert!(state.active_gpu_clock.is_none());
    assert!(!state.gpu_follows_tdp);
}

#[test]
fn a_later_start_keeps_the_choices() {
    let target = PowerEnvelopeTarget {
        spl: PowerMilliwatts(20_000),
        sppt: PowerMilliwatts(23_000),
        fppt: None,
    };
    let device = Device { target: Some(target), plugged: None };
    let config = DaemonConfig { default_fan_curve: None, ..DaemonConfig::default() };
    let mut kept = boot_state(&device, None, &limits(), &config);
    assert_eq!(kept.power_target, target);
    assert!(kept.active_fan_curve.is_none());
    kept.charge_end_threshold = 55;
    kept.is_ac_connected = true;
    kept.active_profile = ProfileName::PowerSaver;
    kept.active_fan_curve = Some(FanCurveSelection::Preset(FanCurvePreset::Silent));
    let state = boot_state(&device, Some(kept), &limits(), &config);
    assert_eq!(state.charge_end_threshold, 55);
    assert!(!state.is_ac_connected, "an unknown charger counts as unplugged");
    assert_eq!(state.active_profile, ProfileName::Performance);
    assert_eq!(
        state.active_fan_curve,
        Some(FanCurveSelection::Preset(FanCurvePreset::Silent))
    );
}

/// A machine that tells only its board.
struct Firmware;

impl SysfsIo for Firmware {
    fn read_string(&self, path: &str) -> Result<String, SysfsError> {
        match path {
            BOARD_VENDOR => Ok("  Valve\n".to_string()),
            BOARD_NAME => Ok("Jupiter\n".to_string()),
            _ => Err(SysfsError::NotFound { path: path.to_string() }),
        }
    }

    fn write_string(&self, path: &str, _value: &str) -> Result<(), SysfsError> {
        Err(SysfsError::PermissionDenied { path: path.to_string() })
    }

    fn path_exists(&self, _path: &str) -> bool {
        false
    }

    fn read_dir_names(&self, _path: &str) -> Vec<String> {
        Vec::new()
    }
}

#[test]
fn the_machine_is_read_from_the_firmware() {
    let dmi = read_system_dmi(&Firmware, false);
    assert_eq!(dmi.board_vendor, "Valve");
    assert_eq!(dmi.board_name, "Jupiter");
    assert_eq!(dmi.product_name, "Unknown");
    let made_up = read_system_dmi(&Firmware, true);
    assert_eq!(made_up.board_vendor, "ASUSTeK COMPUTER INC.");
    assert_eq!(made_up.board_name, "RC73XA");
}

fn dmi(vendor: &str, board: &str, product: &str) -> DmiInfo {
    DmiInfo {
        board_vendor: vendor.to_string(),
        board_name: board.to_string(),
        product_name: product.to_string(),
    }
}

#[test]
fn handhelds_of_other_vendors_are_recognised() {
    assert_eq!(
        matches_lenovo_handheld(&dmi("Lenovo", "", "83E1")),
        Some(LenovoModel::LegionGo)
    );
    assert_eq!(
        matches_lenovo_handheld(&dmi("LENOVO", "xx83E1yy", "")),
        Some(LenovoModel::LegionGo)
    );
    assert_eq!(matches_lenovo_handheld(&dmi("LENOVO", "", "82RN")), None);
    assert_eq!(matches_lenovo_handheld(&dmi("Acer", "", "83E1")), None);
    assert_eq!(
        matches_valve_handheld(&dmi("valve", "", "Jupiter")),
        Some(ValveModel::SteamDeckLcd)
    );
    assert_eq!(
        matches_valve_handheld(&dmi("Valve", "", "Galileo")),
        Some(ValveModel::SteamDeckOled)
    );
    assert_eq!(matches_valve_handheld(&dmi("Valve", "", "Deckard")), None);
}

#[test]
fn their_power_is_not_programmed_yet() {
    let target = PowerEnvelopeTarget {
        spl: PowerMilliwatts(1),
        sppt: PowerMilliwatts(1),
        fppt: None,
    };
    let lenovo = LenovoPowerBackend::new(Firmware);
    assert_eq!(
        lenovo.get_limits().unwrap_err().to_string(),
        "Backend error: Lenovo limits implementation pending. See docs/devices/lenovo.md"
    );
    assert!(matches!(lenovo.get_target(), Err(HpdError::FeatureUnsupported)));
    assert!(matches!(lenovo.set_target(&target), Err(HpdError::FeatureUnsupported)));
    let valve = ValvePowerBackend::new(Firmware);
    assert_eq!(
        valve.get_limits().unwrap_err().to_string(),
        "Backend error: Valve limits implementation pending. See docs/devices/valve.md"
    );
}

#[test]
fn only_the_end_of_sleep_is_told() {
    assert!(on_prepare_for_sleep(true).is_none());
    assert!(matches!(on_prepare_for_sleep(false), Some(Transition::SystemResumed)));
    assert!(!reconnects(SessionEnd::ExecutorGone));
    assert!(reconnects(SessionEnd::StreamLost));
    assert!(reconnects(SessionEnd::SetupFailed));
}

#[test]
fn a_start_puts_the_state_in_force() {
    let device = Device { target: None, plugged: Some(true) };
    let config = DaemonConfig::default();
    let begun = start(&device, Ok(limits()), None, &config).unwrap();
    assert_eq!(begun.limits, limits());
    assert!(matches!(begun.first, Transition::SystemResumed));
    assert_eq!(begun.state, boot_state(&device, None, &limits(), &config));
    assert!(begun.state.is_ac_connected);
}

#[test]
fn unreadable_limits_end_the_start() {
    let device = Device { target: None, plugged: None };
    let unread = Err(HpdError::Sysfs(SysfsError::NotFound { path: "/x".to_string() }));
    assert!(matches!(
        start(&device, unread, None, &DaemonConfig::default()),
        Err(HpdError::Sysfs(SysfsError::NotFound { path })) if path == "/x"
    ));
}
