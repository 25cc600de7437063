use hpd::actions::PolkitAction;

#[test]
fn all_ids_are_unique_and_namespaced() {
    let ids: Vec<&str> = PolkitAction::ALL.iter().map(|a| a.as_id()).collect();
    for id in &ids {
        assert!(
            id.starts_with("dev.cirodev.hpd."),
            "action id {id} is outside the dev.cirodev.hpd.* namespace covered by 49-hpd.rules"
        );
    }
    let unique: std::collections::HashSet<&&str> = ids.iter().collect();
    assert_eq!(unique.len(), ids.len(), "duplicate action id in PolkitAction::ALL");
}

#[test]
fn all_entries_match_a_known_variant() {
    for action in PolkitAction::ALL {
        match action {
            PolkitAction::SetTdp
            | PolkitAction::SetCharge
            | PolkitAction::SetProfile
            | PolkitAction::SetFanCurve => {}
        }
    }
}
