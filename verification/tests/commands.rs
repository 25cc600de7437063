use hpd::commands::{
    change_power_mode, charge_line, explain_refusal, next_frame, offers_repair, render_curves,
    tdp_line, Change,
};

#[test]
fn changes_are_announced() {
    assert_eq!(
        Change::Tdp(15).announcement(),
        Some("Requesting TDP change to 15W...".to_string())
    );
    assert_eq!(
        Change::ChargeLimit(80).announcement(),
        Some("Changing battery limit to 80%...".to_string())
    );
    assert_eq!(
        Change::Preset("eco".to_string()).announcement(),
        Some("🚀 Requesting profile change to 'ECO'...".to_string())
    );
    assert_eq!(
        Change::Preset("straße".to_string()).announcement(),
        Some("🚀 Requesting profile change to 'STRASSE'...".to_string())
    );
    assert_eq!(Change::AutoCooling.announcement(), None);
}

#[test]
fn agreed_changes_are_confirmed() {
    let done = Change::Tdp(15).outcome(Ok(()));
    assert_eq!(done.out, vec!["✅ TDP successfully changed."]);
    assert!(done.err.is_empty());
    assert!(!done.failed);
    let done = Change::Preset("max".to_string()).outcome(Ok(()));
    assert_eq!(
        done.out,
        vec![
            "✅ Preset applied successfully.",
            "(Cooling profile has changed automatically)."
        ]
    );
    let done = Change::Cooling("silent".to_string()).outcome(Ok(()));
    assert_eq!(done.out, vec!["🧊 Cooling level set to: silent"]);
    let done = change_power_mode("ECO".to_string()).unwrap().outcome(Ok(()));
    assert_eq!(done.out, vec!["🔧 Power mode set to: eco (power-saver)"]);
    let done = Change::AcLock(false).outcome(Ok(()));
    assert_eq!(
        done.out,
        vec!["🔓 AC lock DISABLED — AC is now fully manual; plugging in changes nothing."]
    );
    assert!(Change::AcLock(true).outcome(Ok(())).out[0].starts_with("🔒 AC lock ENABLED"));
}

#[test]
fn some_refusals_are_only_reported() {
    let refused = Change::Preset("x".to_string()).outcome(Err("no".to_string()));
    assert_eq!(refused.err, vec!["❌ Error applying preset: no"]);
    assert!(!refused.failed);
    let refused = Change::AcLock(true).outcome(Err("no".to_string()));
    assert_eq!(refused.err, vec!["❌ Error setting AC lock: no"]);
    assert!(!refused.failed);
}

#[test]
fn other_refusals_fail_the_command() {
    for change in [
        Change::Tdp(1),
        Change::ChargeLimit(1),
        Change::AutoCooling,
        Change::FirmwareFans,
    ] {
        let refused = change.outcome(Err("no".to_string()));
        assert_eq!(refused.err, vec!["Error executing command: no"]);
        assert!(refused.out.is_empty());
        assert!(refused.failed);
    }
    let lines = explain_refusal("org.freedesktop.DBus.Error.AuthFailed: Not authorized");
    assert_eq!(lines.len(), 4);
    assert_eq!(lines[2], "    hpdctl fix-polkit");
}

#[test]
fn unknown_power_modes_are_refused() {
    assert_eq!(
        change_power_mode("TURBO".to_string()).unwrap_err(),
        "❌ Unknown power mode 'turbo'. Use: performance, balanced, or eco."
    );
    assert!(matches!(
        change_power_mode("Perf".to_string()),
        Ok(Change::PowerMode { mode, profile: "performance" }) if mode == "Perf"
    ));
}

#[test]
fn values_in_force_are_printed() {
    assert_eq!(tdp_line(15), "Current TDP (SPL): 15W");
    assert_eq!(charge_line(80), "Current battery limit: 80%");
    let page = render_curves("silent", &vec![(45, 255)], &vec![]);
    assert_eq!(page.len(), 4);
    assert_eq!(page[0], "🌀 Fan curve: silent");
    assert_eq!(page[1], "  CPU fan  (temp → speed):");
    assert_eq!(
        page[3],
        "  GPU fan  (temp → speed): firmware automatic (no custom curve)"
    );
}

#[test]
fn health_is_asked_for_every_fifth_frame() {
    assert_eq!(next_frame(0), (1, true));
    assert_eq!(next_frame(4), (5, false));
    assert_eq!(next_frame(5), (6, true));
    assert_eq!(next_frame(u32::MAX), (0, true));
}

#[test]
fn the_repair_is_offered_to_someone_who_needs_it() {
    assert!(offers_repair(Some(false), true));
    assert!(!offers_repair(Some(false), false));
    assert!(!offers_repair(Some(true), true));
    assert!(!offers_repair(None, true));
}
