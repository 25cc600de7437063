use hpd::conflicts::{RIVAL_POWER_DAEMONS, RIVAL_UNITS as DETECTED_RIVAL_UNITS};
use hpd::doctor::RIVAL_UNITS;

#[test]
fn every_detected_rival_has_a_mask_target() {
    for (friendly_name, _) in RIVAL_POWER_DAEMONS
        .iter()
        .chain(DETECTED_RIVAL_UNITS.iter())
    {
        if *friendly_name == "hhd" {
            continue;
        }
        let expected_unit = format!("{friendly_name}.service");
        assert!(
            RIVAL_UNITS.contains(&expected_unit.as_str()),
            "rival '{friendly_name}' is found but never stopped (expected '{expected_unit}')"
        );
    }
}

#[test]
fn every_mask_target_traces_back_to_a_detected_rival() {
    let detected_units: Vec<String> = RIVAL_POWER_DAEMONS
        .iter()
        .chain(DETECTED_RIVAL_UNITS.iter())
        .map(|(name, _)| format!("{name}.service"))
        .collect();

    for unit in &RIVAL_UNITS {
        if *unit == "tuned-ppd.service" {
            continue;
        }
        assert!(
            detected_units.iter().any(|d| d == unit),
            "unit '{unit}' is stopped but no rival of that name is found"
        );
    }
}
