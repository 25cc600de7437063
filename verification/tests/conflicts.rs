use hpd::conflicts::{
    ADVISORY_POWER_DAEMONS, ADVISORY_UNITS, RIVAL_POWER_DAEMONS, RIVAL_UNITS,
};

#[test]
fn bus_names_are_well_formed() {
    for (name, bus) in RIVAL_POWER_DAEMONS.iter().chain(&ADVISORY_POWER_DAEMONS) {
        assert!(!name.is_empty(), "daemon friendly name is empty");
        assert!(
            bus.contains('.') && !bus.starts_with('.') && !bus.ends_with('.'),
            "daemon bus name {bus} is not a dotted well-known name"
        );
    }
}

#[test]
fn unit_patterns_are_well_formed() {
    for (name, pattern) in RIVAL_UNITS.iter().chain(&ADVISORY_UNITS) {
        assert!(!name.is_empty(), "daemon friendly name is empty");
        assert!(
            pattern.ends_with(".service"),
            "unit pattern {pattern} is not a .service unit"
        );
    }
}

#[test]
fn rival_and_advisory_lists_are_disjoint() {
    let rival_ids: Vec<&str> = RIVAL_POWER_DAEMONS
        .iter()
        .chain(&RIVAL_UNITS)
        .map(|(_, id)| *id)
        .collect();
    let advisory_ids: Vec<&str> = ADVISORY_POWER_DAEMONS
        .iter()
        .chain(&ADVISORY_UNITS)
        .map(|(_, id)| *id)
        .collect();
    for id in &rival_ids {
        assert!(
            !advisory_ids.contains(id),
            "{id} is in both the rival and advisory lists"
        );
    }
}
