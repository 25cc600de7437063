use hpd::error::SysfsError;
use hpd::netlink::{emit_if_changed, read_mains_online_at};
use hpd::sysfs::SysfsIo;
use hpd::transition::Transition;

/// A `power_supply` tree: name, type and, where there is one, the online flag.
struct Supplies(Vec<(&'static str, &'static str, Option<&'static str>)>);

const ROOT: &str = "/sys/class/power_supply";

impl SysfsIo for Supplies {
    fn read_string(&self, path: &str) -> Result<String, SysfsError> {
        for (name, kind, online) in &self.0 {
            if path == format!("{ROOT}/{name}/type") {
                return Ok(format!("{kind}\n"));
            }
            if path == format!("{ROOT}/{name}/online") {
                if let Some(online) = online {
                    return Ok(format!("{online}\n"));
                }
            }
        }
        Err(SysfsError::NotFound { path: path.to_string() })
    }

    fn write_string(&self, path: &str, _value: &str) -> Result<(), SysfsError> {
        Err(SysfsError::PermissionDenied { path: path.to_string() })
    }

    fn path_exists(&self, path: &str) -> bool {
        self.read_string(path).is_ok()
    }

    fn read_dir_names(&self, path: &str) -> Vec<String> {
        if path == ROOT {
            self.0.iter().map(|(name, _, _)| name.to_string()).collect()
        } else {
            Vec::new()
        }
    }
}

#[test]
fn mains_online_reflects_ac0_not_the_usb_c_port() {
    let base = Supplies(vec![
        ("AC0", "Mains", Some("1")),
        ("BAT0", "Battery", None),
        ("ucsi-source-psy-USBC000:002", "USB", Some("1")),
    ]);
    assert_eq!(read_mains_online_at(&base, ROOT), Some(true));
}

#[test]
fn mains_offline_when_ac0_online_zero_ignoring_usb() {
    let base = Supplies(vec![
        ("AC0", "Mains", Some("0")),
        ("ucsi-source-psy-USBC000:001", "USB", Some("1")),
    ]);
    assert_eq!(read_mains_online_at(&base, ROOT), Some(false));
}

#[test]
fn no_mains_node_is_none() {
    let base = Supplies(vec![("BAT0", "Battery", None)]);
    assert_eq!(read_mains_online_at(&base, ROOT), None);
}

#[test]
fn missing_root_is_none() {
    let base = Supplies(vec![("AC0", "Mains", Some("1"))]);
    assert_eq!(read_mains_online_at(&base, "/hpd-netlink-does-not-exist-xyz"), None);
}

#[test]
fn any_of_several_mains_nodes_counts() {
    let base = Supplies(vec![
        ("AC0", "Mains", None),
        ("AC1", "Mains", Some("1")),
        ("AC2", "Mains", Some("0")),
    ]);
    assert_eq!(read_mains_online_at(&base, ROOT), Some(true));
}

#[test]
fn only_changes_are_told() {
    let mut last = Some(false);
    assert!(emit_if_changed(&mut last, Some(false)).is_none());
    assert!(emit_if_changed(&mut last, None).is_none());
    assert_eq!(last, Some(false));
    assert!(matches!(
        emit_if_changed(&mut last, Some(true)),
        Some(Transition::AcPowerChanged(true))
    ));
    assert_eq!(last, Some(true));
    assert!(emit_if_changed(&mut last, Some(true)).is_none());
    assert!(matches!(
        emit_if_changed(&mut last, Some(false)),
        Some(Transition::AcPowerChanged(false))
    ));
}

#[test]
fn the_first_finding_is_told_where_nothing_was_known() {
    let mut last = None;
    assert!(matches!(
        emit_if_changed(&mut last, Some(false)),
        Some(Transition::AcPowerChanged(false))
    ));
}
