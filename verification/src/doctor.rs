//! Whether the daemon is alone in charge of power, and what to do where it is
//! not.

use crate::conflicts;
use crate::fix;
use crate::fix::Route;
use crate::text;
use vstd::prelude::*;

verus! {

/// The units that a repair always stops.
pub const RIVAL_UNITS: [&'static str; 5] = [
    "power-profiles-daemon.service",
    "steamos-manager.service",
    "tuned.service",
    "tuned-ppd.service",
    "tlp.service",
];

/// The unit of the Handheld Daemon. It handles the gamepad too, and is stopped
/// only where something else does.
pub const HHD_UNIT: &'static str = "hhd@.service";

/// The unit that can take over the gamepad.
pub const INPUTPLUMBER_UNIT: &'static str = "inputplumber.service";

// ---------------------------------------------------------------------------
// The report
// ---------------------------------------------------------------------------

/// What the daemon answers. An answer that it does not give is nothing.
#[derive(Debug)]
pub struct Findings {
    /// Whether the policy is installed, and the actions that are missing.
    pub diagnostics: Option<(bool, Vec<String>)>,
    /// The rivals that run.
    pub conflicts: Option<Vec<String>>,
    /// The reported daemons that run.
    pub advisory: Option<Vec<String>>,
    /// Whether desktop clients are served.
    pub ppd_shim_active: Option<bool>,
    /// Whether this is a session of the console mode.
    pub gamescope: bool,
}

/// The report, and whether there is nothing to repair.
#[derive(Debug)]
pub struct Health {
    pub lines: Vec<String>,
    pub healthy: bool,
}

/// The names in a row.
pub open spec fn listed(names: Seq<String>) -> Seq<char> {
    text::joined(text::texts(names), ", "@)
}

impl Findings {
    /// Whether the policy is missing, or that could not be found out.
    pub open spec fn policy_bad(self) -> bool {
        !(self.diagnostics matches Some(d) && d.0)
    }

    /// Whether a rival runs.
    pub open spec fn rivals_bad(self) -> bool {
        self.conflicts matches Some(found) && found@.len() > 0
    }

    /// The lines on the policy.
    pub open spec fn policy_lines(self) -> Seq<Seq<char>> {
        match self.diagnostics {
            Some((true, _)) => seq![
                "  polkit:             ✅ installed (privileged commands work)"@,
            ],
            Some((false, missing)) => {
                let head = seq![
                    "  polkit:             ❌ NOT installed — privileged commands are denied"@,
                ];
                if missing@.len() > 0 {
                    head.push("                      unregistered: "@ + listed(missing@))
                } else {
                    head
                }
            },
            None => seq![
                "  polkit:             ❔ could not query the daemon (is hpd running?)"@,
            ],
        }
    }

    /// The line on rivals.
    pub open spec fn rival_line(self) -> Seq<char> {
        match self.conflicts {
            Some(found) => if found@.len() == 0 {
                "  competing daemons:  ✅ none — hpd owns the power knobs"@
            } else {
                "  competing daemons:  ⚠️  active: "@ + listed(found@)
                    + " (fighting hpd over TDP / profile / charge)"@
            },
            None => "  competing daemons:  ❔ this daemon is too old to report (update hpd)"@,
        }
    }

    /// The line on reported daemons, where the daemon can tell.
    pub open spec fn advisory_lines(self) -> Seq<Seq<char>> {
        match self.advisory {
            Some(found) => if found@.len() == 0 {
                seq!["  advisory tools:     ✅ none touching power surfaces"@]
            } else {
                seq![
                    "  advisory tools:     ℹ️  "@ + listed(found@)
                        + " live — may also touch power (informational; not masked)"@,
                ]
            },
            None => Seq::empty(),
        }
    }

    /// The line on desktop clients, where the daemon can tell.
    pub open spec fn shim_lines(self) -> Seq<Seq<char>> {
        match self.ppd_shim_active {
            Some(true) => seq![
                "  compat PPD:         ✅ active (hpd answers for power-profiles-daemon)"@,
            ],
            Some(false) => seq![
                "  compat PPD:         ➖ inactive (a real PPD/tuned-ppd is not masked — see 'competing daemons' above)"@,
            ],
            None => Seq::empty(),
        }
    }

    /// The line on the session.
    pub open spec fn session_lines(self) -> Seq<Seq<char>> {
        if self.gamescope {
            seq![
                "  session:            🎮 gamescope (Steam Game Mode) — steamos-manager is the TDP backend here"@,
            ]
        } else {
            Seq::empty()
        }
    }

    /// The last line.
    pub open spec fn verdict_line(self) -> Seq<char> {
        if self.policy_bad() || self.rivals_bad() {
            "→ Fix it in one step:  hpdctl doctor --fix"@
        } else {
            "✅ All good — hpd is the sole power manager."@
        }
    }

    /// The whole report.
    pub open spec fn report(self) -> Seq<Seq<char>> {
        self.policy_lines().push(self.rival_line()) + self.advisory_lines() + self.shim_lines()
            + self.session_lines() + seq![
            "---------------------------------------"@,
            self.verdict_line(),
        ]
    }
}

fn say(lines: &mut Vec<String>, line: String)
    ensures
        text::texts(final(lines)@) == text::texts(old(lines)@).push(line@),
{
    lines.push(line);
    assert(text::texts(lines@) =~= text::texts(old(lines)@).push(line@));
}

fn say_policy(lines: &mut Vec<String>, f: &Findings)
    ensures
        text::texts(final(lines)@) == text::texts(old(lines)@) + f.policy_lines(),
{
    let ghost before = text::texts(lines@);
    match &f.diagnostics {
        Some((true, _)) => {
            say(
                lines,
                "  polkit:             ✅ installed (privileged commands work)".to_owned(),
            );
        },
        Some((false, missing)) => {
            say(
                lines,
                "  polkit:             ❌ NOT installed — privileged commands are denied".to_owned(),
            );
            if missing.len() > 0 {
                let mut line = "                      unregistered: ".to_owned();
                line.append(text::join(missing, ", ").as_str());
                say(lines, line);
            }
        },
        None => {
            say(
                lines,
                "  polkit:             ❔ could not query the daemon (is hpd running?)".to_owned(),
            );
        },
    }
    assert(text::texts(lines@) =~= before + f.policy_lines());
}

fn say_rivals(lines: &mut Vec<String>, f: &Findings)
    ensures
        text::texts(final(lines)@) == text::texts(old(lines)@).push(f.rival_line()),
{
    match &f.conflicts {
        Some(found) => {
            if found.len() == 0 {
                say(
                    lines,
                    "  competing daemons:  ✅ none — hpd owns the power knobs".to_owned(),
                );
            } else {
                let mut line = "  competing daemons:  ⚠️  active: ".to_owned();
                line.append(text::join(found, ", ").as_str());
                line.append(" (fighting hpd over TDP / profile / charge)");
                say(lines, line);
            }
        },
        None => {
            say(
                lines,
                "  competing daemons:  ❔ this daemon is too old to report (update hpd)".to_owned(),
            );
        },
    }
}

fn say_advisory(lines: &mut Vec<String>, f: &Findings)
    ensures
        text::texts(final(lines)@) == text::texts(old(lines)@) + f.advisory_lines(),
{
    let ghost before = text::texts(lines@);
    match &f.advisory {
        Some(found) => {
            if found.len() == 0 {
                say(lines, "  advisory tools:     ✅ none touching power surfaces".to_owned());
            } else {
                let mut line = "  advisory tools:     ℹ️  ".to_owned();
                line.append(text::join(found, ", ").as_str());
                line.append(" live — may also touch power (informational; not masked)");
                say(lines, line);
            }
        },
        None => {},
    }
    assert(text::texts(lines@) =~= before + f.advisory_lines());
}

fn say_shim(lines: &mut Vec<String>, f: &Findings)
    ensures
        text::texts(final(lines)@) == text::texts(old(lines)@) + f.shim_lines(),
{
    let ghost before = text::texts(lines@);
    match f.ppd_shim_active {
        Some(true) => {
            say(
                lines,
                "  compat PPD:         ✅ active (hpd answers for power-profiles-daemon)".to_owned(),
            );
        },
        Some(false) => {
            say(
                lines,
                "  compat PPD:         ➖ inactive (a real PPD/tuned-ppd is not masked — see 'competing daemons' above)".to_owned(),
            );
        },
        None => {},
    }
    assert(text::texts(lines@) =~= before + f.shim_lines());
}

fn say_session(lines: &mut Vec<String>, f: &Findings)
    ensures
        text::texts(final(lines)@) == text::texts(old(lines)@) + f.session_lines(),
{
    let ghost before = text::texts(lines@);
    if f.gamescope {
        say(
            lines,
            "  session:            🎮 gamescope (Steam Game Mode) — steamos-manager is the TDP backend here".to_owned(),
        );
    }
    assert(text::texts(lines@) =~= before + f.session_lines());
}

/// The report on whether the daemon is alone in charge of power. Daemons that
/// are merely reported do not count against it.
pub fn report(f: &Findings) -> (r: Health)
    ensures
        text::texts(r.lines@) == f.report(),
        r.healthy <==> !f.policy_bad() && !f.rivals_bad(),
{
    let policy_bad = match &f.diagnostics {
        Some((ok, _)) => !*ok,
        None => true,
    };
    let rivals_bad = match &f.conflicts {
        Some(found) => found.len() > 0,
        None => false,
    };
    let healthy = !policy_bad && !rivals_bad;
    let mut lines: Vec<String> = Vec::new();
    assert(text::texts(lines@) =~= Seq::empty());
    say_policy(&mut lines, f);
    assert(text::texts(lines@) =~= f.policy_lines());
    say_rivals(&mut lines, f);
    say_advisory(&mut lines, f);
    say_shim(&mut lines, f);
    say_session(&mut lines, f);
    say(&mut lines, "---------------------------------------".to_owned());
    if healthy {
        say(&mut lines, "✅ All good — hpd is the sole power manager.".to_owned());
    } else {
        say(&mut lines, "→ Fix it in one step:  hpdctl doctor --fix".to_owned());
    }
    assert(text::texts(lines@) =~= f.report());
    Health { lines, healthy }
}

/// The most important finding in one line: rivals, then a missing policy, then
/// reported daemons. What could not be found out is no finding.
pub fn health_summary(f: &Findings) -> (r: String)
    ensures
        r@ == (if f.rivals_bad() {
            "⚠️  "@ + listed(f.conflicts->0@) + " fighting hpd — run `hpdctl doctor --fix`"@
        } else if f.diagnostics matches Some(d) && !d.0 {
            "⚠️  polkit not installed — run `hpdctl fix-polkit`"@
        } else if f.advisory matches Some(found) && found@.len() > 0 {
            "ℹ️  "@ + listed(f.advisory->0@)
                + " active (governor may move) · hpd otherwise owns power"@
        } else {
            "✅ all good — hpd is the sole power manager"@
        }),
{
    if let Some(found) = &f.conflicts {
        if found.len() > 0 {
            let mut line = "⚠️  ".to_owned();
            line.append(text::join(found, ", ").as_str());
            line.append(" fighting hpd — run `hpdctl doctor --fix`");
            return line;
        }
    }
    if let Some((ok, _)) = &f.diagnostics {
        if !*ok {
            return "⚠️  polkit not installed — run `hpdctl fix-polkit`".to_owned();
        }
    }
    if let Some(found) = &f.advisory {
        if found.len() > 0 {
            let mut line = "ℹ️  ".to_owned();
            line.append(text::join(found, ", ").as_str());
            line.append(" active (governor may move) · hpd otherwise owns power");
            return line;
        }
    }
    "✅ all good — hpd is the sole power manager".to_owned()
}

/// Whether this is a session of the console mode, by the environment.
pub fn gamescope_session(has_display: bool, desktop: Option<&str>) -> (r: bool)
    ensures
        r <==> has_display || (desktop matches Some(d) && text::has_substring(
            text::ascii_lower(d@),
            "gamescope"@,
        )),
{
    if has_display {
        return true;
    }
    match desktop {
        Some(d) => {
            let lower = text::to_ascii_lowercase(d);
            text::contains(lower.as_str(), "gamescope")
        },
        None => false,
    }
}

// ---------------------------------------------------------------------------
// The repair
// ---------------------------------------------------------------------------

/// How a repair is carried out.
pub fn run_fix(apply: bool, root: bool) -> (r: Route)
    ensures
        r == (if apply || root {
            Route::Direct
        } else {
            Route::Elevate
        }),
{
    fix::run(apply, root)
}

/// The units that a repair stops, in order.
pub open spec fn targets(input_covered: bool) -> Seq<Seq<char>> {
    let always = RIVAL_UNITS@.map_values(|u: &'static str| u@);
    if input_covered {
        always.push(HHD_UNIT@)
    } else {
        always
    }
}

/// The units that a repair stops: the Handheld Daemon only where something else
/// covers the gamepad.
pub fn units_to_mask(input_covered: bool) -> (r: Vec<&'static str>)
    ensures
        r@.map_values(|u: &'static str| u@) == targets(input_covered),
{
    let units = RIVAL_UNITS;
    let mut out: Vec<&'static str> = Vec::new();
    let mut i: usize = 0;
    while i < units.len()
        invariant
            i <= units.len(),
            units == RIVAL_UNITS,
            out@ == units@.take(i as int),
        decreases units.len() - i,
    {
        out.push(units[i]);
        assert(out@ =~= units@.take(i + 1));
        i = i + 1;
    }
    assert(units@.take(i as int) =~= units@);
    if input_covered {
        out.push(HHD_UNIT);
    }
    assert(out@.map_values(|u: &'static str| u@) =~= targets(input_covered));
    out
}

/// The commands to the service manager, word by word.
pub open spec fn spelled(commands: Seq<Vec<String>>) -> Seq<Seq<Seq<char>>> {
    commands.map_values(|c: Vec<String>| text::texts(c@))
}

/// What stops a unit for good: to disable it, to stop the instances of a
/// template, and to mask it.
pub open spec fn masking(unit: Seq<char>) -> Seq<Seq<Seq<char>>> {
    let disable = seq!["disable"@, "--now"@, unit];
    let stop = seq!["stop"@, text::replaced(unit, "@.service"@, "@*.service"@)];
    let mask = seq!["mask"@, unit];
    if text::has_substring(unit, "@"@) {
        seq![disable, stop, mask]
    } else {
        seq![disable, mask]
    }
}

fn command2(a: &str, b: &str) -> (r: Vec<String>)
    ensures
        text::texts(r@) == seq![a@, b@],
{
    let mut words: Vec<String> = Vec::new();
    words.push(a.to_owned());
    words.push(b.to_owned());
    assert(text::texts(words@) =~= seq![a@, b@]);
    words
}

fn command3(a: &str, b: &str, c: &str) -> (r: Vec<String>)
    ensures
        text::texts(r@) == seq![a@, b@, c@],
{
    let mut words: Vec<String> = Vec::new();
    words.push(a.to_owned());
    words.push(b.to_owned());
    words.push(c.to_owned());
    assert(text::texts(words@) =~= seq![a@, b@, c@]);
    words
}

/// The commands that stop a unit for good.
pub fn masking_commands(unit: &str) -> (r: Vec<Vec<String>>)
    ensures
        spelled(r@) == masking(unit@),
{
    let mut commands: Vec<Vec<String>> = Vec::new();
    commands.push(command3("disable", "--now", unit));
    if text::contains(unit, "@") {
        proof {
            reveal_strlit("@.service");
        }
        let instances = text::replace(unit, "@.service", "@*.service");
        commands.push(command2("stop", instances.as_str()));
    }
    commands.push(command2("mask", unit));
    assert(spelled(commands@) =~= masking(unit@));
    commands
}

// ---------------------------------------------------------------------------
// Laws
// ---------------------------------------------------------------------------

/// The unit of a daemon.
pub open spec fn unit_of(name: Seq<char>) -> Seq<char> {
    name + ".service"@
}

/// Every rival that can be found is stopped by a repair; the Handheld Daemon
/// where something else covers the gamepad.
pub proof fn found_rivals_are_stopped(i: int)
    ensures
        0 <= i < conflicts::RIVAL_POWER_DAEMONS@.len() ==> forall|covered: bool|
            #[trigger] targets(covered).contains(
                unit_of(conflicts::RIVAL_POWER_DAEMONS@[i].0@),
            ),
        0 <= i < conflicts::RIVAL_UNITS@.len() && conflicts::RIVAL_UNITS@[i].0@ != "hhd"@
            ==> forall|covered: bool|
            #[trigger] targets(covered).contains(unit_of(conflicts::RIVAL_UNITS@[i].0@)),
        targets(true).contains(HHD_UNIT@),
        !targets(false).contains(HHD_UNIT@),
{
    lemma_units();
    let units = RIVAL_UNITS@;
    assert forall|covered: bool, k: int| 0 <= k < units.len() implies (#[trigger] targets(
        covered,
    )).contains((#[trigger] units[k])@) by {
        assert(targets(covered)[k] == units[k]@);
    }
    assert(targets(true)[5] == HHD_UNIT@);
    if 0 <= i < conflicts::RIVAL_POWER_DAEMONS@.len() {
        let name = conflicts::RIVAL_POWER_DAEMONS@[i].0@;
        if i == 0 {
            assert(unit_of(name) == units[0]@);
        } else if i == 1 {
            assert(unit_of(name) == units[1]@);
        } else {
            assert(unit_of(name) == units[2]@);
        }
    }
    if 0 <= i < conflicts::RIVAL_UNITS@.len() && i != 0 {
        assert(unit_of(conflicts::RIVAL_UNITS@[i].0@) == units[4]@);
    }
    assert(units[0]@.len() == 29);
    assert(units[1]@.len() == 23);
    assert(units[2]@.len() == 13);
    assert(units[3]@.len() == 17);
    assert(units[4]@.len() == 11);
    assert(HHD_UNIT@.len() == 12);
}

proof fn lemma_units()
    ensures
        unit_of("power-profiles-daemon"@) == "power-profiles-daemon.service"@,
        unit_of("steamos-manager"@) == "steamos-manager.service"@,
        unit_of("tuned"@) == "tuned.service"@,
        unit_of("tlp"@) == "tlp.service"@,
        "power-profiles-daemon.service"@.len() == 29,
        "steamos-manager.service"@.len() == 23,
        "tuned.service"@.len() == 13,
        "tuned-ppd.service"@.len() == 17,
        "tlp.service"@.len() == 11,
        "hhd@.service"@.len() == 12,
        "hhd"@ != "tlp"@,
        "hhd"@.len() == 3,
{
    reveal_strlit(".service");
    reveal_strlit("power-profiles-daemon");
    reveal_strlit("power-profiles-daemon.service");
    reveal_strlit("steamos-manager");
    reveal_strlit("steamos-manager.service");
    reveal_strlit("tuned");
    reveal_strlit("tuned.service");
    reveal_strlit("tuned-ppd.service");
    reveal_strlit("tlp");
    reveal_strlit("tlp.service");
    reveal_strlit("hhd");
    reveal_strlit("hhd@.service");
    assert(unit_of("power-profiles-daemon"@) =~= "power-profiles-daemon.service"@);
    assert(unit_of("steamos-manager"@) =~= "steamos-manager.service"@);
    assert(unit_of("tuned"@) =~= "tuned.service"@);
    assert(unit_of("tlp"@) =~= "tlp.service"@);
    assert("hhd"@[0] != "tlp"@[0]);
}

/// Every unit that a repair always stops belongs to a rival that can be found;
/// the companion of `tuned` shares its bus name with another.
pub proof fn stopped_units_are_found(i: int)
    requires
        0 <= i < RIVAL_UNITS@.len(),
        RIVAL_UNITS@[i]@ != "tuned-ppd.service"@,
    ensures
        (exists|k: int|
            0 <= k < conflicts::RIVAL_POWER_DAEMONS@.len() && unit_of(
                (#[trigger] conflicts::RIVAL_POWER_DAEMONS@[k]).0@,
            ) == RIVAL_UNITS@[i]@) || (exists|k: int|
            0 <= k < conflicts::RIVAL_UNITS@.len() && unit_of(
                (#[trigger] conflicts::RIVAL_UNITS@[k]).0@,
            ) == RIVAL_UNITS@[i]@),
{
    lemma_units();
    let named = conflicts::RIVAL_POWER_DAEMONS@;
    let others = conflicts::RIVAL_UNITS@;
    assert(unit_of(named[0].0@) == RIVAL_UNITS@[0]@);
    assert(unit_of(named[1].0@) == RIVAL_UNITS@[1]@);
    assert(unit_of(named[2].0@) == RIVAL_UNITS@[2]@);
    assert(unit_of(others[1].0@) == RIVAL_UNITS@[4]@);
}

/// A repair never stops a daemon that is merely reported.
pub proof fn reported_daemons_are_left_alone(i: int, covered: bool)
    ensures
        0 <= i < conflicts::ADVISORY_POWER_DAEMONS@.len() ==> !targets(covered).contains(
            unit_of(conflicts::ADVISORY_POWER_DAEMONS@[i].0@),
        ),
        0 <= i < conflicts::ADVISORY_UNITS@.len() ==> !targets(covered).contains(
            unit_of(conflicts::ADVISORY_UNITS@[i].0@),
        ),
{
    lemma_units();
    reveal_strlit(".service");
    reveal_strlit("gamemoded");
    reveal_strlit("asusd");
    reveal_strlit("auto-cpufreq");
    reveal_strlit("tuned.service");
    let units = RIVAL_UNITS@;
    let t = targets(covered);
    assert forall|k: int| 0 <= k < t.len() implies (#[trigger] t[k]).len() == 29 || t[k].len() == 23
        || t[k] == "tuned.service"@ || t[k].len() == 17 || t[k].len() == 11 || t[k].len() == 12 by {
        if k < 5 {
            assert(t[k] == units[k]@);
        }
    }
    assert(unit_of("gamemoded"@).len() == 17);
    assert(unit_of("asusd"@).len() == 13);
    assert(unit_of("asusd"@)[0] == 'a');
    assert("tuned.service"@[0] == 't');
    assert(unit_of("auto-cpufreq"@).len() == 20);
    reveal_strlit("tuned-ppd.service");
    assert(unit_of("gamemoded"@)[0] == 'g');
    assert("tuned-ppd.service"@[0] == 't');
    assert forall|k: int| 0 <= k < t.len() && (#[trigger] t[k]).len() == 17 implies t[k]
        == "tuned-ppd.service"@ by {
        if k < 5 {
            assert(t[k] == units[k]@);
        }
    }
}

/// All is well exactly where the policy is known to be there and no rival is known to run;
/// daemons that are merely reported, and the session, do not count. The last line says so.
pub proof fn all_is_well_without_rivals(f: Findings, r: Health)
    requires
        call_ensures(report, (&f,), r),
    ensures
        r.healthy <==> f.diagnostics is Some && (f.diagnostics->0).0 && (f.conflicts is None
            || f.conflicts->0@.len() == 0),
        r.lines@.len() > 0,
        r.healthy ==> r.lines@.last()@ == "✅ All good — hpd is the sole power manager."@,
        !r.healthy ==> r.lines@.last()@ == "→ Fix it in one step:  hpdctl doctor --fix"@,
{
    let told = text::texts(r.lines@);
    assert(told.len() == r.lines@.len());
    assert(told.last() == r.lines@.last()@);
    assert(f.report().last() == f.verdict_line());
}

/// The summary names the rivals before anything else, then the policy, then the daemons that
/// are merely reported.
pub proof fn the_worst_finding_is_summed_up(f: Findings, r: String)
    requires
        call_ensures(health_summary, (&f,), r),
    ensures
        ({
            let rivals = f.conflicts is Some && f.conflicts->0@.len() > 0;
            let policy = f.diagnostics is Some && !(f.diagnostics->0).0;
            let reported = f.advisory is Some && f.advisory->0@.len() > 0;
            &&& rivals ==> r@ == "⚠️  "@ + text::joined(text::texts(f.conflicts->0@), ", "@)
                + " fighting hpd — run `hpdctl doctor --fix`"@
            &&& !rivals && policy ==> r@ == "⚠️  polkit not installed — run `hpdctl fix-polkit`"@
            &&& !rivals && !policy && reported ==> r@ == "ℹ️  "@ + text::joined(
                text::texts(f.advisory->0@),
                ", "@,
            ) + " active (governor may move) · hpd otherwise owns power"@
            &&& !rivals && !policy && !reported ==> r@
                == "✅ all good — hpd is the sole power manager"@
        }),
{
}

/// The first line tells of the policy, and the next one of the rivals.
pub proof fn the_report_tells_of_policy_and_rivals(f: Findings, r: Health)
    requires
        call_ensures(report, (&f,), r),
    ensures
        r.lines@.len() >= 4,
        f.diagnostics is None ==> r.lines@[0]@
            == "  polkit:             ❔ could not query the daemon (is hpd running?)"@,
        f.diagnostics is Some && (f.diagnostics->0).0 ==> r.lines@[0]@
            == "  polkit:             ✅ installed (privileged commands work)"@,
        f.diagnostics is Some && !(f.diagnostics->0).0 ==> r.lines@[0]@
            == "  polkit:             ❌ NOT installed — privileged commands are denied"@,
        ({
            let at = if f.diagnostics is Some && !(f.diagnostics->0).0 && (
            f.diagnostics->0).1@.len() > 0 {
                2int
            } else {
                1int
            };
            &&& at == 2 ==> r.lines@[1]@ == "                      unregistered: "@ + text::joined(
                text::texts((f.diagnostics->0).1@),
                ", "@,
            )
            &&& f.conflicts is None ==> r.lines@[at]@
                == "  competing daemons:  ❔ this daemon is too old to report (update hpd)"@
            &&& f.conflicts is Some && f.conflicts->0@.len() == 0 ==> r.lines@[at]@
                == "  competing daemons:  ✅ none — hpd owns the power knobs"@
            &&& f.conflicts is Some && f.conflicts->0@.len() > 0 ==> r.lines@[at]@
                == "  competing daemons:  ⚠️  active: "@ + text::joined(
                text::texts(f.conflicts->0@),
                ", "@,
            ) + " (fighting hpd over TDP / profile / charge)"@
        }),
{
    let told = text::texts(r.lines@);
    assert(told.len() == r.lines@.len());
    assert(f.report().len() >= 4);
    let n = f.policy_lines().len() as int;
    assert(told[0] == r.lines@[0]@);
    assert(told[1] == r.lines@[1]@);
    assert(told[2] == r.lines@[2]@);
    assert(f.report()[0] == f.policy_lines()[0]);
    assert(f.report()[n] == f.rival_line());
    if n == 2 {
        assert(f.report()[1] == f.policy_lines()[1]);
    }
}

/// A unit is disabled first and masked last, and the instances of a template are stopped in
/// between.
pub proof fn units_are_disabled_then_masked(unit: &str, r: Vec<Vec<String>>)
    requires
        call_ensures(masking_commands, (unit,), r),
    ensures
        r@.len() == if text::has_substring(unit@, "@"@) {
            3int
        } else {
            2int
        },
        text::texts(r@[0]@) == seq!["disable"@, "--now"@, unit@],
        text::texts(r@.last()@) == seq!["mask"@, unit@],
        r@.len() == 3 ==> text::texts(r@[1]@) == seq![
            "stop"@,
            text::replaced(unit@, "@.service"@, "@*.service"@),
        ],
{
    let words = spelled(r@);
    assert(words.len() == r@.len());
    assert(words[0] == text::texts(r@[0]@));
    assert(words.last() == text::texts(r@.last()@));
    if r@.len() == 3 {
        assert(words[1] == text::texts(r@[1]@));
    }
}

/// A repair needs rights exactly where they are not there, and the console mode is told by
/// either sign of it.
pub proof fn repairs_and_sessions_are_told(
    apply: bool,
    root: bool,
    route: Route,
    display: bool,
    desktop: &str,
    console: bool,
)
    requires
        call_ensures(run_fix, (apply, root), route),
        call_ensures(gamescope_session, (display, Some(desktop)), console),
    ensures
        route is Elevate <==> !apply && !root,
        console <==> display || text::has_substring(text::ascii_lower(desktop@), "gamescope"@),
{
}

/// A repair stops these units, and the gamepad's only where something else covers it.
pub proof fn a_repair_stops_these_units(covered: bool, r: Vec<&'static str>)
    requires
        call_ensures(units_to_mask, (covered,), r),
    ensures
        r@.len() == if covered {
            6int
        } else {
            5int
        },
        r@[0]@ == "power-profiles-daemon.service"@,
        r@[1]@ == "steamos-manager.service"@,
        r@[2]@ == "tuned.service"@,
        r@[3]@ == "tuned-ppd.service"@,
        r@[4]@ == "tlp.service"@,
        covered ==> r@[5]@ == "hhd@.service"@,
{
    let names = r@.map_values(|u: &'static str| u@);
    assert(names.len() == r@.len());
    assert forall|i: int| 0 <= i < r@.len() implies names[i] == #[trigger] r@[i]@ by {}
    assert(targets(covered).len() == r@.len());
    assert forall|i: int| 0 <= i < 5 implies #[trigger] targets(covered)[i] == RIVAL_UNITS@[i]@ by {}
}

} // verus!
