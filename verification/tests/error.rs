use hpd::error::{BackendError, HpdError, SysfsError};
use std::io;

#[test]
fn from_io_maps_notfound_kind_to_notfound_variant() {
    let err = io::Error::new(io::ErrorKind::NotFound, "no such file");
    let sysfs = SysfsError::from_io("/sys/class/firmware-attributes/x".to_string(), err);
    assert!(matches!(
        sysfs,
        SysfsError::NotFound { ref path }
            if path == "/sys/class/firmware-attributes/x"
    ));
}

#[test]
fn from_io_maps_permissiondenied_kind_to_permissiondenied_variant() {
    let err = io::Error::new(io::ErrorKind::PermissionDenied, "EACCES");
    let sysfs = SysfsError::from_io("/sys/firmware/acpi/platform_profile".to_string(), err);
    assert!(matches!(
        sysfs,
        SysfsError::PermissionDenied { ref path }
            if path == "/sys/firmware/acpi/platform_profile"
    ));
}

#[test]
fn from_io_falls_back_to_io_variant_for_other_kinds() {
    let original = io::Error::new(io::ErrorKind::InvalidData, "bad bytes");
    let sysfs = SysfsError::from_io("/sys/foo".to_string(), original);
    match sysfs {
        SysfsError::Io { path, source } => {
            assert_eq!(path, "/sys/foo");
            assert_eq!(source.kind(), io::ErrorKind::InvalidData);
        }
        other => panic!("expected SysfsError::Io, got {:?}", other),
    }
}

#[test]
fn hpderror_display_renders_sysfs_transparently() {
    let inner = SysfsError::NotFound {
        path: "/sys/x".to_string(),
    };
    let inner_str = inner.to_string();
    let outer: HpdError = inner.into();
    assert_eq!(outer.to_string(), inner_str);
}

#[test]
fn backenderror_parsefailed_display_includes_field_and_raw() {
    let err = BackendError::ParseFailed {
        field: "watts",
        raw: "0xZZ".to_string(),
        reason: "expected integer".to_string(),
    };
    let s = err.to_string();
    assert!(s.contains("watts"), "missing field name: {s}");
    assert!(s.contains("0xZZ"), "missing raw value: {s}");
    assert!(s.contains("expected integer"), "missing reason: {s}");
}
