use hpd::cli::{
    ac_lock_line, cooling_line, fmt_telemetry, friendly_mode, is_consent, is_denial, limits_lines,
    parse_power_mode, power_mode_line, render_curve, render_dashboard, Status,
};
use hpd::conflicts::{advisory_daemons, power_conflicts};
use hpd::doctor::{
    gamescope_session, health_summary, masking_commands, report, run_fix, units_to_mask, Findings,
};
use hpd::fix::{elevation_tool, exit_code, is_root, run, Route};

#[test]
fn power_modes_have_friendly_names() {
    assert_eq!(parse_power_mode("Perf"), Ok("performance"));
    assert_eq!(parse_power_mode("BALANCED"), Ok("balanced"));
    assert_eq!(parse_power_mode("power_saver"), Ok("power-saver"));
    assert_eq!(parse_power_mode("eco"), Ok("power-saver"));
    assert_eq!(parse_power_mode("TURBO"), Err("turbo".to_string()));
    assert_eq!(parse_power_mode("ÉCO"), Err("éco".to_string()));
    assert_eq!(friendly_mode("power-saver"), "eco");
    assert_eq!(friendly_mode("performance"), "performance");
    assert_eq!(power_mode_line("power-saver"), "🔧 Power mode: eco (power-saver)");
}

#[test]
fn readings_may_be_missing() {
    assert_eq!(fmt_telemetry(i32::MIN, "°C"), "n/a");
    assert_eq!(fmt_telemetry(61, "°C"), "61°C");
    assert_eq!(fmt_telemetry(-3, "°C"), "-3°C");
    assert_eq!(fmt_telemetry(0, " RPM"), "0 RPM");
}

#[test]
fn curves_are_drawn_as_bars() {
    let lines = render_curve("CPU fan", &vec![(45, 0), (62, 128), (100, 255), (5, 999)]);
    assert_eq!(lines[0], "  CPU fan:");
    assert_eq!(lines[1], format!("     45°C │{}│   0%", " ".repeat(24)));
    assert_eq!(
        lines[2],
        format!("     62°C │{}{}│  50%", "█".repeat(12), " ".repeat(12))
    );
    assert_eq!(lines[3], format!("    100°C │{}│ 100%", "█".repeat(24)));
    assert_eq!(lines[4], format!("      5°C │{}│ 100%", "█".repeat(24)));
    assert_eq!(
        render_curve("GPU fan", &vec![]),
        vec!["  GPU fan: firmware automatic (no custom curve)".to_string()]
    );
}

fn status() -> Status {
    Status {
        spl_watts: 15,
        charge_limit: 80,
        auto_cooling: true,
        fan_curve: "silent".to_string(),
        cpu_temp: 61,
        gpu_temp: i32::MIN,
        cpu_rpm: 3200,
        gpu_rpm: i32::MIN,
        soc_power_mw: 16_088,
        is_ac: false,
    }
}

#[test]
fn the_dashboard_shows_the_state() {
    let lines = render_dashboard(&status());
    assert_eq!(lines.len(), 10);
    assert_eq!(lines[3], "   ⚡ Power:            16W now · 15W TDP cap");
    assert_eq!(lines[4], "  🧊 Cooling:          silent (auto)");
    assert!(lines[5].ends_with("CPU 61°C · GPU n/a"));
    assert!(lines[6].ends_with("CPU 3200 RPM · GPU n/a"));
    assert!(lines[7].ends_with("🔋 Battery (DC)"));
    assert_eq!(lines[8], "  🔋 Battery Limit:    80%");

    let lines = render_dashboard(&Status {
        soc_power_mw: i32::MIN,
        fan_curve: "auto".to_string(),
        auto_cooling: false,
        is_ac: true,
        ..status()
    });
    assert_eq!(lines[3], "   ⚡ Power:            15W (TDP cap)");
    assert_eq!(lines[4], "  🧊 Cooling:          firmware (manual)");
    assert!(lines[7].ends_with("⚡ Connected (AC)"));
    let lines = render_dashboard(&Status { soc_power_mw: -1_999, ..status() });
    assert_eq!(lines[3], "   ⚡ Power:            -1W now · 15W TDP cap");
}

#[test]
fn short_reports() {
    assert_eq!(
        limits_lines((7, 35, 43, 55)),
        vec![
            "📊 Detected hardware limits:",
            "  • SPL Min (Base):    7W",
            "  • SPL Max (Base):    35W",
            "  • SPPT Max (Boost):  43W",
            "  • FPPT Max (Peak):   55W",
        ]
    );
    assert_eq!(cooling_line("balanced", false), "🧊 Cooling: balanced (manual)");
    assert_eq!(
        ac_lock_line(true, false),
        "🔌 AC lock: on (preference) · currently unlocked"
    );
    assert_eq!(
        ac_lock_line(false, true),
        "🔌 AC lock: off (preference) · currently LOCKED (on AC)"
    );
}

#[test]
fn answers_and_refusals_are_understood() {
    assert!(is_consent("\n"));
    assert!(is_consent(" Y \n"));
    assert!(is_consent("YES"));
    assert!(!is_consent("no"));
    assert!(is_denial("org.freedesktop.DBus.Error.AuthFailed: x"));
    assert!(is_denial("caller not authorized"));
    assert!(!is_denial("timeout"));
}

fn healthy() -> Findings {
    Findings {
        diagnostics: Some((true, vec![])),
        conflicts: Some(vec![]),
        advisory: Some(vec![]),
        ppd_shim_active: Some(true),
        gamescope: false,
    }
}

fn names(list: &[&str]) -> Vec<String> {
    list.iter().map(|n| n.to_string()).collect()
}

#[test]
fn a_healthy_system_is_reported_so() {
    let health = report(&healthy());
    assert!(health.healthy);
    assert_eq!(health.lines.len(), 6);
    assert_eq!(
        health.lines.last().unwrap(),
        "✅ All good — hpd is the sole power manager."
    );
    assert_eq!(
        health_summary(&healthy()),
        "✅ all good — hpd is the sole power manager"
    );
}

#[test]
fn problems_are_reported_by_weight() {
    let mut findings = healthy();
    findings.advisory = Some(names(&["gamemoded", "asusd"]));
    assert!(report(&findings).healthy);
    assert_eq!(
        health_summary(&findings),
        "ℹ️  gamemoded, asusd active (governor may move) · hpd otherwise owns power"
    );

    findings.diagnostics = Some((false, names(&["a", "b"])));
    let health = report(&findings);
    assert!(!health.healthy);
    assert_eq!(health.lines[1], "                      unregistered: a, b");
    assert_eq!(
        health_summary(&findings),
        "⚠️  polkit not installed — run `hpdctl fix-polkit`"
    );

    findings.conflicts = Some(names(&["tuned"]));
    assert_eq!(
        health_summary(&findings),
        "⚠️  tuned fighting hpd — run `hpdctl doctor --fix`"
    );
    assert_eq!(
        report(&findings).lines.last().unwrap(),
        "→ Fix it in one step:  hpdctl doctor --fix"
    );
}

#[test]
fn an_older_daemon_is_no_alarm_in_the_summary() {
    let silent = Findings {
        diagnostics: None,
        conflicts: None,
        advisory: None,
        ppd_shim_active: None,
        gamescope: true,
    };
    let health = report(&silent);
    assert!(!health.healthy, "an unknown policy needs attention");
    assert_eq!(health.lines.len(), 5);
    assert_eq!(
        health_summary(&silent),
        "✅ all good — hpd is the sole power manager"
    );
}

#[test]
fn the_console_session_is_recognised() {
    assert!(gamescope_session(true, None));
    assert!(gamescope_session(false, Some("KDE:GameScope")));
    assert!(!gamescope_session(false, Some("KDE")));
    assert!(!gamescope_session(false, None));
}

#[test]
fn repairs_stop_units_for_good() {
    assert_eq!(units_to_mask(false).len(), 5);
    assert!(!units_to_mask(false).contains(&"hhd@.service"));
    assert_eq!(units_to_mask(true).last(), Some(&"hhd@.service"));
    assert_eq!(
        masking_commands("tlp.service"),
        vec![names(&["disable", "--now", "tlp.service"]), names(&["mask", "tlp.service"])]
    );
    assert_eq!(
        masking_commands("hhd@.service"),
        vec![
            names(&["disable", "--now", "hhd@.service"]),
            names(&["stop", "hhd@*.service"]),
            names(&["mask", "hhd@.service"]),
        ]
    );
}

#[test]
fn root_is_told_by_the_effective_user() {
    assert!(is_root(Some("Name:\thpdctl\nUid:\t1000\t0\t0\t0\nGid:\t0\n")));
    assert!(!is_root(Some("Name:\thpdctl\nUid:\t0\t1000\t0\t0\n")));
    assert!(!is_root(Some("Uid:\t0\n")));
    assert!(!is_root(Some("")));
    assert!(!is_root(None));
}

#[test]
fn repairs_ask_for_rights_only_where_they_lack_them() {
    assert_eq!(run(false, false), Route::Elevate);
    assert_eq!(run(true, false), Route::Direct);
    assert_eq!(run_fix(false, true), Route::Direct);
    assert_eq!(run_fix(false, false), Route::Elevate);
    assert_eq!(elevation_tool(true, true), Some("pkexec"));
    assert_eq!(elevation_tool(false, true), Some("sudo"));
    assert_eq!(elevation_tool(false, false), None);
    assert_eq!(exit_code(true, None), 0);
    assert_eq!(exit_code(false, Some(126)), 126);
    assert_eq!(exit_code(false, None), 1);
}

#[test]
fn other_power_daemons_are_told_by_name() {
    assert_eq!(
        power_conflicts(&vec![true, false, true], &vec![false, true]),
        vec!["power-profiles-daemon", "tuned", "tlp"]
    );
    assert!(power_conflicts(&vec![], &vec![]).is_empty());
    assert_eq!(
        advisory_daemons(&vec![false, true], &vec![true]),
        vec!["asusd", "auto-cpufreq"]
    );
}
