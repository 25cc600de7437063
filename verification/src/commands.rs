//! The commands of the client: what each asks the daemon for, what it prints
//! before and after, and how it ends.

use crate::cli;
use crate::text;
use vstd::prelude::*;

verus! {

/// After how many frames the live dashboard asks for the health again.
pub const HEALTH_PERIOD: u32 = 5;

/// How a command ends that asks for something unknown.
pub const USAGE_EXIT_CODE: i32 = 2;

/// A change that a command asks the daemon for.
#[derive(Debug)]
pub enum Change {
    /// The sustained power limit, in watts.
    Tdp(u32),
    /// The level at which charging stops, in percent.
    ChargeLimit(u8),
    /// A named power limit.
    Preset(String),
    /// A cooling level.
    Cooling(String),
    /// Cooling that follows the power limit.
    AutoCooling,
    /// The fans left to the firmware.
    FirmwareFans,
    /// A power mode, as it was asked for, and the platform profile that it
    /// stands for.
    PowerMode { mode: String, profile: &'static str },
    /// Whether AC pins maximum performance.
    AcLock(bool),
}

/// What a command prints, on either stream, and whether it failed.
#[derive(Debug)]
pub struct Outcome {
    pub out: Vec<String>,
    pub err: Vec<String>,
    pub failed: bool,
}

/// `before`, the number and `after`.
pub open spec fn numbered(before: Seq<char>, n: nat, after: Seq<char>) -> Seq<char> {
    before + text::dec(n) + after
}

fn make_numbered(before: &str, n: u64, after: &str) -> (r: String)
    ensures
        r@ == numbered(before@, n as nat, after@),
{
    let mut s = before.to_owned();
    text::push_dec(&mut s, n);
    s.append(after);
    s
}

fn around(before: &str, middle: &str, after: &str) -> (r: String)
    ensures
        r@ == before@ + middle@ + after@,
{
    let mut s = before.to_owned();
    s.append(middle);
    s.append(after);
    s
}

/// The complaint about a power mode that is not known.
pub open spec fn unknown_mode_text(mode: Seq<char>) -> Seq<char> {
    "❌ Unknown power mode '"@ + text::folded(mode)
        + "'. Use: performance, balanced, or eco."@
}

/// The change that a power mode asks for; a complaint where it is not known.
pub fn change_power_mode(mode: String) -> (r: Result<Change, String>)
    ensures
        match cli::profile_of_mode(mode@) {
            Some(profile) => r matches Ok(Change::PowerMode { mode: m, profile: p }) && m == mode
                && p@ == profile,
            None => r is Err && r->Err_0@ == unknown_mode_text(mode@),
        },
{
    match cli::parse_power_mode(mode.as_str()) {
        Ok(profile) => Ok(Change::PowerMode { mode, profile }),
        Err(unknown) => Err(
            around(
                "❌ Unknown power mode '",
                unknown.as_str(),
                "'. Use: performance, balanced, or eco.",
            ),
        ),
    }
}

impl Change {
    /// What is printed before the daemon is asked.
    pub open spec fn announced(self) -> Option<Seq<char>> {
        match self {
            Change::Tdp(watts) => Some(
                numbered("Requesting TDP change to "@, watts as nat, "W..."@),
            ),
            Change::ChargeLimit(limit) => Some(
                numbered("Changing battery limit to "@, limit as nat, "%..."@),
            ),
            Change::Preset(name) => Some(
                "🚀 Requesting profile change to '"@ + text::capitalized(name@) + "'..."@,
            ),
            _ => None,
        }
    }

    /// What is printed once the daemon has agreed.
    pub open spec fn confirmed(self) -> Seq<Seq<char>> {
        match self {
            Change::Tdp(_) => seq!["✅ TDP successfully changed."@],
            Change::ChargeLimit(_) => seq!["✅ Battery limit successfully changed."@],
            Change::Preset(_) => seq![
                "✅ Preset applied successfully."@,
                "(Cooling profile has changed automatically)."@,
            ],
            Change::Cooling(level) => seq!["🧊 Cooling level set to: "@ + level@],
            Change::AutoCooling => seq!["🔄 Automatic cooling enabled (follows TDP)."@],
            Change::FirmwareFans => seq!["🔄 Fans handed back to firmware automatic control."@],
            Change::PowerMode { mode, profile } => seq![
                "🔧 Power mode set to: "@ + text::folded(mode@) + " ("@ + profile@ + ")"@,
            ],
            Change::AcLock(true) => seq![
                "🔒 AC lock ENABLED — plugging in now pins max performance (Performance / Max / Aggressive) and locks the controls. The battery charge limit stays editable."@,
            ],
            Change::AcLock(false) => seq![
                "🔓 AC lock DISABLED — AC is now fully manual; plugging in changes nothing."@,
            ],
        }
    }

    /// What introduces the daemon's reason where a refusal is only reported;
    /// nothing where it makes the command fail.
    pub open spec fn complaint(self) -> Option<Seq<char>> {
        match self {
            Change::Preset(_) => Some("❌ Error applying preset: "@),
            Change::Cooling(_) => Some("❌ Error setting cooling level: "@),
            Change::PowerMode { .. } => Some("❌ Error setting power mode: "@),
            Change::AcLock(_) => Some("❌ Error setting AC lock: "@),
            _ => None,
        }
    }

    /// What is printed before the daemon is asked.
    pub fn announcement(&self) -> (r: Option<String>)
        ensures
            match self.announced() {
                Some(line) => r is Some && r->0@ == line,
                None => r is None,
            },
    {
        match self {
            Change::Tdp(watts) => Some(
                make_numbered("Requesting TDP change to ", *watts as u64, "W..."),
            ),
            Change::ChargeLimit(limit) => Some(
                make_numbered("Changing battery limit to ", *limit as u64, "%..."),
            ),
            Change::Preset(name) => {
                let name = text::to_uppercase(name.as_str());
                Some(around("🚀 Requesting profile change to '", name.as_str(), "'..."))
            },
            _ => None,
        }
    }

    fn confirmation(&self) -> (r: Vec<String>)
        ensures
            text::texts(r@) == self.confirmed(),
    {
        let mut lines: Vec<String> = Vec::new();
        match self {
            Change::Tdp(_) => lines.push("✅ TDP successfully changed.".to_owned()),
            Change::ChargeLimit(_) => lines.push(
                "✅ Battery limit successfully changed.".to_owned(),
            ),
            Change::Preset(_) => {
                lines.push("✅ Preset applied successfully.".to_owned());
                lines.push("(Cooling profile has changed automatically).".to_owned());
            },
            Change::Cooling(level) => lines.push(
                cli::labelled("🧊 Cooling level set to: ", level.as_str()),
            ),
            Change::AutoCooling => lines.push(
                "🔄 Automatic cooling enabled (follows TDP).".to_owned(),
            ),
            Change::FirmwareFans => lines.push(
                "🔄 Fans handed back to firmware automatic control.".to_owned(),
            ),
            Change::PowerMode { mode, profile } => {
                let lower = text::to_lowercase(mode.as_str());
                let mut line = around("🔧 Power mode set to: ", lower.as_str(), " (");
                line.append(profile);
                line.append(")");
                lines.push(line);
            },
            Change::AcLock(enabled) => lines.push(
                (if *enabled {
                    "🔒 AC lock ENABLED — plugging in now pins max performance (Performance / Max / Aggressive) and locks the controls. The battery charge limit stays editable."
                } else {
                    "🔓 AC lock DISABLED — AC is now fully manual; plugging in changes nothing."
                }).to_owned(),
            ),
        }
        assert(text::texts(lines@) =~= self.confirmed());
        lines
    }

    /// Whether `o` is what the command comes to, by the daemon's reply: it fails
    /// only where it was refused and the refusal is more than reported.
    pub open spec fn comes_to(self, reply: Result<(), String>, o: Outcome) -> bool {
        match reply {
            Ok(_) => text::texts(o.out@) == self.confirmed() && o.err@.len() == 0 && !o.failed,
            Err(reason) => match self.complaint() {
                Some(words) => o.out@.len() == 0 && text::texts(o.err@) == seq![
                    words + reason@,
                ] && !o.failed,
                None => o.out@.len() == 0 && text::texts(o.err@) == refusal_lines(reason@)
                    && o.failed,
            },
        }
    }

    /// What the command comes to, by the daemon's reply.
    pub fn outcome(&self, reply: Result<(), String>) -> (o: Outcome)
        ensures
            self.comes_to(reply, o),
    {
        let reason = match reply {
            Ok(_) => return Outcome { out: self.confirmation(), err: Vec::new(), failed: false },
            Err(reason) => reason,
        };
        let words = match self {
            Change::Preset(_) => "❌ Error applying preset: ",
            Change::Cooling(_) => "❌ Error setting cooling level: ",
            Change::PowerMode { .. } => "❌ Error setting power mode: ",
            Change::AcLock(_) => "❌ Error setting AC lock: ",
            _ => return Outcome {
                out: Vec::new(),
                err: explain_refusal(reason.as_str()),
                failed: true,
            },
        };
        let mut err: Vec<String> = Vec::new();
        err.push(cli::labelled(words, reason.as_str()));
        assert(text::texts(err@) =~= seq![words@ + reason@]);
        Outcome { out: Vec::new(), err, failed: false }
    }
}

/// What is printed of a refusal that makes a command fail: how to mend it where
/// authorization was denied, else the reason.
pub open spec fn refusal_lines(reason: Seq<char>) -> Seq<Seq<char>> {
    if text::has_substring(reason, "AuthFailed"@) || text::has_substring(
        reason,
        "not authorized"@,
    ) {
        seq![
            "Permission denied by polkit."@,
            "If the polkit policy isn't installed (common with a hand-copied binary), run:"@,
            "    hpdctl fix-polkit"@,
            "Otherwise you may need an admin password, or to be in the `wheel` group."@,
        ]
    } else {
        seq!["Error executing command: "@ + reason]
    }
}

/// What is printed of a refusal that makes a command fail.
pub fn explain_refusal(reason: &str) -> (r: Vec<String>)
    ensures
        text::texts(r@) == refusal_lines(reason@),
{
    let mut lines: Vec<String> = Vec::new();
    if cli::is_denial(reason) {
        lines.push("Permission denied by polkit.".to_owned());
        lines.push(
            "If the polkit policy isn't installed (common with a hand-copied binary), run:".to_owned(),
        );
        lines.push("    hpdctl fix-polkit".to_owned());
        lines.push(
            "Otherwise you may need an admin password, or to be in the `wheel` group.".to_owned(),
        );
    } else {
        lines.push(cli::labelled("Error executing command: ", reason));
    }
    assert(text::texts(lines@) =~= refusal_lines(reason@));
    lines
}

/// The line on the power limit in force.
pub fn tdp_line(watts: u32) -> (r: String)
    ensures
        r@ == numbered("Current TDP (SPL): "@, watts as nat, "W"@),
{
    make_numbered("Current TDP (SPL): ", watts as u64, "W")
}

/// The line on the charge limit in force.
pub fn charge_line(limit: u8) -> (r: String)
    ensures
        r@ == numbered("Current battery limit: "@, limit as nat, "%"@),
{
    make_numbered("Current battery limit: ", limit as u64, "%")
}

/// The drawing of both fans' curves, under the level that is in force.
pub open spec fn curve_page(level: Seq<char>, cpu: Seq<(u32, u32)>, gpu: Seq<(u32, u32)>) -> Seq<
    Seq<char>,
> {
    seq!["🌀 Fan curve: "@ + level] + cli::curve_lines("CPU fan  (temp → speed)"@, cpu)
        + cli::curve_lines("GPU fan  (temp → speed)"@, gpu)
}

/// The drawing of both fans' curves, under the level that is in force.
pub fn render_curves(level: &str, cpu: &Vec<(u32, u32)>, gpu: &Vec<(u32, u32)>) -> (r: Vec<String>)
    ensures
        text::texts(r@) == curve_page(level@, cpu@, gpu@),
{
    let mut lines: Vec<String> = Vec::new();
    lines.push(cli::labelled("🌀 Fan curve: ", level));
    let mut first = cli::render_curve("CPU fan  (temp → speed)", cpu);
    let mut second = cli::render_curve("GPU fan  (temp → speed)", gpu);
    let ghost a = lines@;
    let ghost b = first@;
    let ghost c = second@;
    lines.append(&mut first);
    lines.append(&mut second);
    assert(text::texts(lines@) =~= text::texts(a) + text::texts(b) + text::texts(c));
    assert(text::texts(a) =~= seq!["🌀 Fan curve: "@ + level@]);
    lines
}

/// The next frame of the live dashboard, and whether this one asks for the
/// health again.
pub fn next_frame(tick: u32) -> (r: (u32, bool))
    ensures
        r.0 as int == (tick + 1) % 0x1_0000_0000,
        r.1 <==> tick % HEALTH_PERIOD == 0,
{
    (tick.wrapping_add(1), tick % HEALTH_PERIOD == 0)
}

/// Whether the repair of the policy is offered: where the daemon tells that it
/// is missing, and there is someone to answer.
pub fn offers_repair(policy_installed: Option<bool>, interactive: bool) -> (r: bool)
    ensures
        r <==> policy_installed == Some(false) && interactive,
{
    match policy_installed {
        Some(installed) => !installed && interactive,
        None => false,
    }
}

// ---------------------------------------------------------------------------
// Laws
// ---------------------------------------------------------------------------

/// A command that the daemon agreed to succeeds without a complaint. One that it refused
/// confirms nothing and complains; it fails where it asked for a power limit, a charge limit
/// or who drives the fans, and else only reports.
pub proof fn commands_end_as_the_daemon_replied(
    change: Change,
    reply: Result<(), String>,
    o: Outcome,
)
    requires
        call_ensures(Change::outcome, (&change, reply), o),
    ensures
        reply is Ok ==> !o.failed && o.err@.len() == 0 && o.out@.len() > 0,
        reply is Err ==> o.out@.len() == 0 && o.err@.len() > 0,
        o.failed <==> reply is Err && (change is Tdp || change is ChargeLimit
            || change is AutoCooling || change is FirmwareFans),
{
    if reply is Ok {
        assert(text::texts(o.out@).len() == o.out@.len());
    } else {
        assert(text::texts(o.err@).len() == o.err@.len());
    }
}

/// What is announced and confirmed tells what was asked for.
pub proof fn commands_say_what_they_ask_for(change: Change, said: Option<String>, o: Outcome)
    requires
        call_ensures(Change::announcement, (&change,), said),
        call_ensures(Change::outcome, (&change, Ok(())), o),
    ensures
        change matches Change::Tdp(watts) ==> (said matches Some(line) && line@
            == "Requesting TDP change to "@ + text::dec(watts as nat) + "W..."@),
        change matches Change::ChargeLimit(limit) ==> (said matches Some(line) && line@
            == "Changing battery limit to "@ + text::dec(limit as nat) + "%..."@),
        change matches Change::Preset(name) ==> (said matches Some(line) && line@
            == "🚀 Requesting profile change to '"@ + text::capitalized(name@) + "'..."@),
        said is Some <==> change is Tdp || change is ChargeLimit || change is Preset,
        change matches Change::Cooling(level) ==> o.out@[0]@ == "🧊 Cooling level set to: "@ + level@,
        change matches Change::PowerMode { mode, profile } ==> o.out@[0]@
            == "🔧 Power mode set to: "@ + text::folded(mode@) + " ("@ + profile@ + ")"@,
        change is AutoCooling ==> o.out@[0]@ == "🔄 Automatic cooling enabled (follows TDP)."@,
        change is FirmwareFans ==> o.out@[0]@
            == "🔄 Fans handed back to firmware automatic control."@,
        change is Tdp ==> o.out@[0]@ == "✅ TDP successfully changed."@,
        change is ChargeLimit ==> o.out@[0]@ == "✅ Battery limit successfully changed."@,
{
    assert(text::texts(o.out@).len() == o.out@.len());
    assert(text::texts(o.out@)[0] == o.out@[0]@);
}

/// A mode that is not known is never asked for; one that is known is asked for by the word it
/// was given in.
pub proof fn known_modes_are_asked_for(mode: String, r: Result<Change, String>)
    requires
        call_ensures(change_power_mode, (mode,), r),
    ensures
        r matches Ok(change) ==> (change matches Change::PowerMode { mode: m, profile } && m == mode
            && cli::profile_of_mode(mode@) == Some(profile@)),
        r matches Err(words) ==> cli::profile_of_mode(mode@) is None && words@
            == "❌ Unknown power mode '"@ + text::folded(mode@)
            + "'. Use: performance, balanced, or eco."@,
{
}

/// The health is asked for on the first frame and then on every fifth.
pub proof fn health_is_asked_for_on_every_fifth_frame(
    tick: u32,
    r: (u32, bool),
    installed: Option<bool>,
    interactive: bool,
    offered: bool,
)
    requires
        call_ensures(next_frame, (tick,), r),
        call_ensures(offers_repair, (installed, interactive), offered),
    ensures
        r.1 <==> tick % 5 == 0,
        tick < u32::MAX ==> r.0 == tick + 1,
        tick == u32::MAX ==> r.0 == 0,
        offered ==> interactive && installed is Some && !installed->0,
        interactive && installed is Some && !installed->0 ==> offered,
{
}

/// The drawing of the curves shows the CPU's before the GPU's.
pub proof fn curves_are_shown_in_order(
    level: &str,
    cpu: Vec<(u32, u32)>,
    gpu: Vec<(u32, u32)>,
    r: Vec<String>,
)
    requires
        call_ensures(render_curves, (level, &cpu, &gpu), r),
    ensures
        text::texts(r@) == seq!["🌀 Fan curve: "@ + level@] + cli::curve_lines(
            "CPU fan  (temp → speed)"@,
            cpu@,
        ) + cli::curve_lines("GPU fan  (temp → speed)"@, gpu@),
{
}

/// The lines on the limits in force tell the numbers.
pub proof fn limits_in_force_are_told(watts: u32, tdp: String, limit: u8, charge: String)
    requires
        call_ensures(tdp_line, (watts,), tdp),
        call_ensures(charge_line, (limit,), charge),
    ensures
        tdp@ == "Current TDP (SPL): "@ + text::dec(watts as nat) + "W"@,
        charge@ == "Current battery limit: "@ + text::dec(limit as nat) + "%"@,
{
}

/// A refusal tells how to mend it exactly where authorization was denied.
pub proof fn refusals_tell_how_to_mend_them(reason: &str, r: Vec<String>)
    requires
        call_ensures(explain_refusal, (reason,), r),
    ensures
        ({
            let denied = text::has_substring(reason@, "AuthFailed"@) || text::has_substring(
                reason@,
                "not authorized"@,
            );
            &&& denied ==> r@.len() == 4 && r@[0]@ == "Permission denied by polkit."@ && r@[2]@
                == "    hpdctl fix-polkit"@
            &&& !denied ==> r@.len() == 1 && r@[0]@ == "Error executing command: "@ + reason@
        }),
{
    assert(text::texts(r@).len() == r@.len());
    assert(text::texts(r@)[0] == r@[0]@);
    if r@.len() == 4 {
        assert(text::texts(r@)[2] == r@[2]@);
    }
}

} // verus!
