//! What the command-line client understands and prints.

use crate::readings::TELEMETRY_UNAVAILABLE;
use crate::text;
use vstd::prelude::*;

verus! {

/// How wide the bar of a full duty is.
pub const BAR_WIDTH: u32 = 24;

// ---------------------------------------------------------------------------
// Words
// ---------------------------------------------------------------------------

/// The platform profile that a power mode stands for, without regard to letter
/// case.
pub open spec fn profile_of_mode(mode: Seq<char>) -> Option<Seq<char>> {
    let m = text::folded(mode);
    if m == "performance"@ || m == "perf"@ {
        Some("performance"@)
    } else if m == "balanced"@ {
        Some("balanced"@)
    } else if m == "eco"@ || m == "power-saver"@ || m == "powersave"@ || m == "power_saver"@ {
        Some("power-saver"@)
    } else {
        None
    }
}

/// The platform profile that a power mode stands for; else the mode in lower
/// case, which is not known.
pub fn parse_power_mode(mode: &str) -> (r: Result<&'static str, String>)
    ensures
        match profile_of_mode(mode@) {
            Some(profile) => r is Ok && r->Ok_0@ == profile,
            None => r is Err && r->Err_0@ == text::folded(mode@),
        },
{
    let lower = text::to_lowercase(mode);
    let m = lower.as_str();
    if text::same(m, "performance") || text::same(m, "perf") {
        Ok("performance")
    } else if text::same(m, "balanced") {
        Ok("balanced")
    } else if text::same(m, "eco") || text::same(m, "power-saver") || text::same(m, "powersave")
        || text::same(m, "power_saver") {
        Ok("power-saver")
    } else {
        Err(lower)
    }
}

/// The power mode that a platform profile is called by.
pub open spec fn mode_of_profile(profile: Seq<char>) -> Seq<char> {
    if profile == "power-saver"@ {
        "eco"@
    } else {
        profile
    }
}

/// The power mode that a platform profile is called by.
pub fn friendly_mode(profile: &str) -> (r: String)
    ensures
        r@ == mode_of_profile(profile@),
{
    if text::same(profile, "power-saver") {
        "eco".to_owned()
    } else {
        profile.to_owned()
    }
}

/// Whether an error message tells that authorization was denied.
pub fn is_denial(message: &str) -> (r: bool)
    ensures
        r <==> text::has_substring(message@, "AuthFailed"@) || text::has_substring(
            message@,
            "not authorized"@,
        ),
{
    text::contains(message, "AuthFailed") || text::contains(message, "not authorized")
}

/// Whether an answer to a question that suggests yes is a yes.
pub fn is_consent(answer: &str) -> (r: bool)
    ensures
        r <==> ({
            let a = text::folded(text::trimmed(answer@));
            a.len() == 0 || a == "y"@ || a == "yes"@
        }),
{
    let a = text::to_lowercase(text::trim(answer));
    let a = a.as_str();
    a.is_empty() || text::same(a, "y") || text::same(a, "yes")
}

/// The word for who picks the cooling level.
pub open spec fn cooling_mode(auto: bool) -> Seq<char> {
    if auto {
        "auto"@
    } else {
        "manual"@
    }
}

/// The line on the AC lock: the preference, and whether the levers are locked
/// now.
pub fn ac_lock_line(preference: bool, locked: bool) -> (r: String)
    ensures
        r@ == "🔌 AC lock: "@ + (if preference {
            "on"@
        } else {
            "off"@
        }) + " (preference) · currently "@ + (if locked {
            "LOCKED (on AC)"@
        } else {
            "unlocked"@
        }),
{
    let mut s = "🔌 AC lock: ".to_owned();
    s.append(
        if preference {
            "on"
        } else {
            "off"
        },
    );
    s.append(" (preference) · currently ");
    s.append(
        if locked {
            "LOCKED (on AC)"
        } else {
            "unlocked"
        },
    );
    s
}

/// The line on cooling.
pub fn cooling_line(level: &str, auto: bool) -> (r: String)
    ensures
        r@ == "🧊 Cooling: "@ + level@ + " ("@ + cooling_mode(auto) + ")"@,
{
    let mut s = "🧊 Cooling: ".to_owned();
    s.append(level);
    s.append(" (");
    s.append(
        if auto {
            "auto"
        } else {
            "manual"
        },
    );
    s.append(")");
    s
}

/// The line on the power mode.
pub fn power_mode_line(profile: &str) -> (r: String)
    ensures
        r@ == "🔧 Power mode: "@ + mode_of_profile(profile@) + " ("@ + profile@ + ")"@,
{
    let mut s = "🔧 Power mode: ".to_owned();
    s.append(friendly_mode(profile).as_str());
    s.append(" (");
    s.append(profile);
    s.append(")");
    s
}

fn say(lines: &mut Vec<String>, line: String)
    ensures
        text::texts(final(lines)@) == text::texts(old(lines)@).push(line@),
{
    lines.push(line);
    assert(text::texts(lines@) =~= text::texts(old(lines)@).push(line@));
}

/// A line with a number of watts.
pub open spec fn watt_line(label: Seq<char>, watts: u32) -> Seq<char> {
    label + text::dec(watts as nat) + "W"@
}

fn make_watt_line(label: &str, watts: u32) -> (r: String)
    ensures
        r@ == watt_line(label@, watts),
{
    let mut s = label.to_owned();
    text::push_dec(&mut s, watts as u64);
    s.append("W");
    s
}

/// The lines on the range that the hardware accepts.
pub fn limits_lines(limits: (u32, u32, u32, u32)) -> (r: Vec<String>)
    ensures
        text::texts(r@) == seq![
            "📊 Detected hardware limits:"@,
            watt_line("  • SPL Min (Base):    "@, limits.0),
            watt_line("  • SPL Max (Base):    "@, limits.1),
            watt_line("  • SPPT Max (Boost):  "@, limits.2),
            watt_line("  • FPPT Max (Peak):   "@, limits.3),
        ],
{
    let mut lines: Vec<String> = Vec::new();
    assert(text::texts(lines@) =~= Seq::empty());
    say(&mut lines, "📊 Detected hardware limits:".to_owned());
    say(&mut lines, make_watt_line("  • SPL Min (Base):    ", limits.0));
    say(&mut lines, make_watt_line("  • SPL Max (Base):    ", limits.1));
    say(&mut lines, make_watt_line("  • SPPT Max (Boost):  ", limits.2));
    say(&mut lines, make_watt_line("  • FPPT Max (Peak):   ", limits.3));
    lines
}

// ---------------------------------------------------------------------------
// Fan curves
// ---------------------------------------------------------------------------

/// A duty, as far as there is one.
pub open spec fn duty_of(pwm: u32) -> nat {
    if pwm <= 255 {
        pwm as nat
    } else {
        255
    }
}

/// The line of one point: the temperature, a bar as long as the duty, and the
/// duty in percent.
pub open spec fn point_line(point: (u32, u32)) -> Seq<char> {
    let duty = duty_of(point.1);
    let filled = duty * (BAR_WIDTH as nat) / 255;
    "    "@ + text::padded(text::dec(point.0 as nat), 3) + "°C │"@ + text::repeated("█"@, filled)
        + text::repeated(" "@, (BAR_WIDTH - filled) as nat) + "│ "@ + text::padded(
        text::dec(duty * 100 / 255),
        3,
    ) + "%"@
}

fn make_point_line(temp: u32, pwm: u32) -> (r: String)
    ensures
        r@ == point_line((temp, pwm)),
{
    let duty: u32 = if pwm <= 255 {
        pwm
    } else {
        255
    };
    let percent: u32 = duty * 100 / 255;
    let filled: u32 = duty * BAR_WIDTH / 255;
    assert(filled <= BAR_WIDTH);
    let mut temperature = String::new();
    text::push_dec(&mut temperature, temp as u64);
    assert(temperature@ =~= text::dec(temp as nat));
    let mut share = String::new();
    text::push_dec(&mut share, percent as u64);
    assert(share@ =~= text::dec(percent as nat));
    let mut s = "    ".to_owned();
    text::push_padded(&mut s, temperature.as_str(), 3);
    s.append("°C │");
    text::push_repeated(&mut s, "█", filled as usize);
    text::push_repeated(&mut s, " ", (BAR_WIDTH - filled) as usize);
    s.append("│ ");
    text::push_padded(&mut s, share.as_str(), 3);
    s.append("%");
    s
}

/// The drawing of a curve.
pub open spec fn curve_lines(label: Seq<char>, points: Seq<(u32, u32)>) -> Seq<Seq<char>> {
    if points.len() == 0 {
        seq!["  "@ + label + ": firmware automatic (no custom curve)"@]
    } else {
        seq!["  "@ + label + ":"@] + points.map_values(|p: (u32, u32)| point_line(p))
    }
}

/// Draw a curve: one bar for each point.
pub fn render_curve(label: &str, points: &Vec<(u32, u32)>) -> (r: Vec<String>)
    ensures
        text::texts(r@) == curve_lines(label@, points@),
{
    let mut lines: Vec<String> = Vec::new();
    assert(text::texts(lines@) =~= Seq::empty());
    let mut head = "  ".to_owned();
    head.append(label);
    if points.len() == 0 {
        head.append(": firmware automatic (no custom curve)");
        say(&mut lines, head);
        assert(text::texts(lines@) =~= curve_lines(label@, points@));
        return lines;
    }
    head.append(":");
    say(&mut lines, head);
    let ghost drawn = points@.map_values(|p: (u32, u32)| point_line(p));
    let ghost title = seq!["  "@ + label@ + ":"@];
    let mut i: usize = 0;
    assert(text::texts(lines@) =~= title + drawn.take(0));
    while i < points.len()
        invariant
            i <= points.len(),
            drawn == points@.map_values(|p: (u32, u32)| point_line(p)),
            text::texts(lines@) == title + drawn.take(i as int),
        decreases points.len() - i,
    {
        say(&mut lines, make_point_line(points[i].0, points[i].1));
        assert(text::texts(lines@) =~= title + drawn.take(i + 1));
        i = i + 1;
    }
    assert(drawn.take(i as int) =~= drawn);
    lines
}

// ---------------------------------------------------------------------------
// The dashboard
// ---------------------------------------------------------------------------

/// A reading with its unit; `n/a` where there is none.
pub open spec fn reading_text(value: i32, unit: Seq<char>) -> Seq<char> {
    if value == TELEMETRY_UNAVAILABLE {
        "n/a"@
    } else {
        text::signed_dec(value as int) + unit
    }
}

/// A reading with its unit; `n/a` where there is none.
pub fn fmt_telemetry(value: i32, unit: &str) -> (r: String)
    ensures
        r@ == reading_text(value, unit@),
{
    if value == TELEMETRY_UNAVAILABLE {
        return "n/a".to_owned();
    }
    let mut s = String::new();
    text::push_signed_dec(&mut s, value as i64);
    s.append(unit);
    assert(s@ =~= reading_text(value, unit@));
    s
}

/// What the dashboard shows.
#[derive(Debug)]
pub struct Status {
    pub spl_watts: u32,
    pub charge_limit: u8,
    pub auto_cooling: bool,
    pub fan_curve: String,
    pub cpu_temp: i32,
    pub gpu_temp: i32,
    pub cpu_rpm: i32,
    pub gpu_rpm: i32,
    pub soc_power_mw: i32,
    pub is_ac: bool,
}

/// `v` divided by a thousand, towards zero.
pub open spec fn thousandth(v: i32) -> int {
    if v >= 0 {
        v as int / 1000
    } else {
        -((-(v as int)) / 1000)
    }
}

fn divide_by_thousand(v: i32) -> (r: i64)
    ensures
        r == thousandth(v),
{
    if v >= 0 {
        (v as i64) / 1000
    } else {
        let positive: i64 = -(v as i64);
        -(positive / 1000)
    }
}

impl Status {
    /// What is drawn now, where that is known, and what may be drawn.
    pub open spec fn power_text(self) -> Seq<char> {
        if self.soc_power_mw == TELEMETRY_UNAVAILABLE {
            text::dec(self.spl_watts as nat) + "W (TDP cap)"@
        } else {
            text::signed_dec(thousandth(self.soc_power_mw)) + "W now · "@ + text::dec(
                self.spl_watts as nat,
            ) + "W TDP cap"@
        }
    }

    /// What the fans run.
    pub open spec fn level_text(self) -> Seq<char> {
        if self.fan_curve@ == "auto"@ {
            "firmware"@
        } else {
            self.fan_curve@
        }
    }

    /// The lines of the dashboard.
    pub open spec fn dashboard(self) -> Seq<Seq<char>> {
        seq![
            "======================================="@,
            "  🎮 Handheld Power Daemon Status 🎮  "@,
            "======================================="@,
            "   ⚡ Power:            "@ + self.power_text(),
            "  🧊 Cooling:          "@ + self.level_text() + " ("@ + cooling_mode(self.auto_cooling)
                + ")"@,
            "  🌡️ Temps:            CPU "@ + reading_text(self.cpu_temp, "°C"@) + " · GPU "@
                + reading_text(self.gpu_temp, "°C"@),
            "  💨 Fans:             CPU "@ + reading_text(self.cpu_rpm, " RPM"@) + " · GPU "@
                + reading_text(self.gpu_rpm, " RPM"@),
            "  🔌 Power adapter:    "@ + (if self.is_ac {
                "⚡ Connected (AC)"@
            } else {
                "🔋 Battery (DC)"@
            }),
            "  🔋 Battery Limit:    "@ + text::dec(self.charge_limit as nat) + "%"@,
            "======================================="@,
        ]
    }

    fn make_power_text(&self) -> (r: String)
        ensures
            r@ == self.power_text(),
    {
        let mut s = String::new();
        if self.soc_power_mw == TELEMETRY_UNAVAILABLE {
            text::push_dec(&mut s, self.spl_watts as u64);
            s.append("W (TDP cap)");
        } else {
            text::push_signed_dec(&mut s, divide_by_thousand(self.soc_power_mw));
            s.append("W now · ");
            text::push_dec(&mut s, self.spl_watts as u64);
            s.append("W TDP cap");
        }
        assert(s@ =~= self.power_text());
        s
    }
}

/// `value` behind its label.
pub fn labelled(label: &str, value: &str) -> (r: String)
    ensures
        r@ == label@ + value@,
{
    let mut s = label.to_owned();
    s.append(value);
    s
}

fn pair_line(label: &str, first: &str, second: &str) -> (r: String)
    ensures
        r@ == label@ + first@ + " · GPU "@ + second@,
{
    let mut s = label.to_owned();
    s.append(first);
    s.append(" · GPU ");
    s.append(second);
    s
}

/// The lines of the dashboard.
pub fn render_dashboard(status: &Status) -> (r: Vec<String>)
    ensures
        text::texts(r@) == status.dashboard(),
{
    let mut lines: Vec<String> = Vec::new();
    assert(text::texts(lines@) =~= Seq::empty());
    say(&mut lines, "=======================================".to_owned());
    say(&mut lines, "  🎮 Handheld Power Daemon Status 🎮  ".to_owned());
    say(&mut lines, "=======================================".to_owned());
    let power = status.make_power_text();
    say(&mut lines, labelled("   ⚡ Power:            ", power.as_str()));
    let mut cooling = "  🧊 Cooling:          ".to_owned();
    if text::same(status.fan_curve.as_str(), "auto") {
        cooling.append("firmware");
    } else {
        cooling.append(status.fan_curve.as_str());
    }
    cooling.append(" (");
    cooling.append(
        if status.auto_cooling {
            "auto"
        } else {
            "manual"
        },
    );
    cooling.append(")");
    say(&mut lines, cooling);
    let cpu_temp = fmt_telemetry(status.cpu_temp, "°C");
    let gpu_temp = fmt_telemetry(status.gpu_temp, "°C");
    say(
        &mut lines,
        pair_line("  🌡️ Temps:            CPU ", cpu_temp.as_str(), gpu_temp.as_str()),
    );
    let cpu_rpm = fmt_telemetry(status.cpu_rpm, " RPM");
    let gpu_rpm = fmt_telemetry(status.gpu_rpm, " RPM");
    say(
        &mut lines,
        pair_line("  💨 Fans:             CPU ", cpu_rpm.as_str(), gpu_rpm.as_str()),
    );
    say(
        &mut lines,
        labelled(
            "  🔌 Power adapter:    ",
            if status.is_ac {
                "⚡ Connected (AC)"
            } else {
                "🔋 Battery (DC)"
            },
        ),
    );
    let mut limit = "  🔋 Battery Limit:    ".to_owned();
    text::push_dec(&mut limit, status.charge_limit as u64);
    limit.append("%");
    say(&mut lines, limit);
    say(&mut lines, "=======================================".to_owned());
    assert(text::texts(lines@) =~= status.dashboard());
    lines
}

// ---------------------------------------------------------------------------
// Laws
// ---------------------------------------------------------------------------

/// Power modes are understood word by word, and every other word is handed back.
pub proof fn power_modes_are_understood(mode: &str, r: Result<&'static str, String>)
    requires
        call_ensures(parse_power_mode, (mode,), r),
    ensures
        ({
            let m = text::folded(mode@);
            let fast = m == "performance"@ || m == "perf"@;
            let middle = m == "balanced"@;
            let saving = m == "eco"@ || m == "power-saver"@ || m == "powersave"@ || m
                == "power_saver"@;
            &&& fast ==> (r matches Ok(p) && p@ == "performance"@)
            &&& middle ==> (r matches Ok(p) && p@ == "balanced"@)
            &&& saving ==> (r matches Ok(p) && p@ == "power-saver"@)
            &&& !fast && !middle && !saving ==> (r matches Err(e) && e@ == m)
        }),
{
    reveal_strlit("performance");
    reveal_strlit("perf");
    reveal_strlit("balanced");
    reveal_strlit("eco");
    reveal_strlit("power-saver");
    reveal_strlit("powersave");
    reveal_strlit("power_saver");
    assert("performance"@[1] == 'e' && "power-saver"@[1] == 'o' && "power_saver"@[1] == 'o');
    assert("performance"@.len() == 11 && "perf"@.len() == 4 && "balanced"@.len() == 8 && "eco"@.len()
        == 3 && "powersave"@.len() == 9 && "power-saver"@.len() == 11 && "power_saver"@.len() == 11);
}

/// The mode that a profile is called by is understood as that profile again.
pub proof fn modes_are_understood_as_they_are_called(
    profile: &str,
    called: String,
    mode: &str,
    r: Result<&'static str, String>,
)
    requires
        profile@ == "performance"@ || profile@ == "balanced"@ || profile@ == "power-saver"@,
        call_ensures(friendly_mode, (profile,), called),
        mode@ == called@,
        call_ensures(parse_power_mode, (mode,), r),
    ensures
        r matches Ok(p) && p@ == profile@,
        profile@ == "power-saver"@ ==> called@ == "eco"@,
        profile@ != "power-saver"@ ==> called@ == profile@,
{
    reveal_strlit("performance");
    reveal_strlit("balanced");
    reveal_strlit("eco");
    reveal_strlit("power-saver");
    assert("performance"@[1] == 'e' && "power-saver"@[1] == 'o');
    assert("performance"@.len() == 11 && "balanced"@.len() == 8 && "eco"@.len() == 3);
    assert(vstd::utf8::is_ascii_chars(called@));
    assert(text::folded(called@) =~= called@);
    power_modes_are_understood(mode, r);
}

/// A bar is as long as the duty: full at full duty, empty at none, and longer for a higher
/// duty; the percentage beside it is the same share of a hundred.
pub proof fn bars_are_as_long_as_the_duty(temp: u32, pwm: u32)
    ensures
        exists|filled: nat, percent: nat|
            #![trigger text::repeated("█"@, filled), text::dec(percent)]
            {
                let duty = if pwm <= 255 {
                    pwm as int
                } else {
                    255
                };
                &&& filled <= 24 && filled * 255 <= duty * 24 < (filled + 1) * 255
                &&& percent <= 100 && percent * 255 <= duty * 100 < (percent + 1) * 255
                &&& point_line((temp, pwm)) == "    "@ + text::padded(text::dec(temp as nat), 3)
                    + "°C │"@ + text::repeated("█"@, filled) + text::repeated(
                    " "@,
                    (24 - filled) as nat,
                ) + "│ "@ + text::padded(text::dec(percent), 3) + "%"@
            },
{
    let duty: nat = if pwm <= 255 {
        pwm as nat
    } else {
        255
    };
    let filled = duty * 24 / 255;
    let percent = duty * 100 / 255;
    assert(point_line((temp, pwm)) == "    "@ + text::padded(text::dec(temp as nat), 3) + "°C │"@
        + text::repeated("█"@, filled) + text::repeated(" "@, (24 - filled) as nat) + "│ "@
        + text::padded(text::dec(percent), 3) + "%"@);
}

/// A drawing has a line for each point, in order, under its label.
pub proof fn every_point_is_drawn(label: &str, points: Vec<(u32, u32)>, r: Vec<String>, i: int)
    requires
        call_ensures(render_curve, (label, &points), r),
        0 <= i < points@.len(),
    ensures
        r@.len() == points@.len() + 1,
        r@[0]@ == "  "@ + label@ + ":"@,
        r@[i + 1]@ == point_line(points@[i]),
{
    let drawn = points@.map_values(|p: (u32, u32)| point_line(p));
    let told = text::texts(r@);
    assert(told.len() == r@.len());
    assert(told == seq!["  "@ + label@ + ":"@] + drawn);
    assert(told[0] == r@[0]@);
    assert(told[i + 1] == drawn[i]);
    assert(told[i + 1] == r@[i + 1]@);
}

/// The dashboard tells each reading in its place: the CPU before the GPU, temperatures before
/// speeds, and what may be drawn beside what is drawn.
pub proof fn the_dashboard_tells_each_reading(status: Status, r: Vec<String>)
    requires
        call_ensures(render_dashboard, (&status,), r),
    ensures
        r@.len() == 10,
        status.soc_power_mw == i32::MIN ==> r@[3]@ == "   ⚡ Power:            "@ + (text::dec(
            status.spl_watts as nat,
        ) + "W (TDP cap)"@),
        status.soc_power_mw >= 0 ==> r@[3]@ == "   ⚡ Power:            "@ + (text::signed_dec(
            status.soc_power_mw as int / 1000,
        ) + "W now · "@ + text::dec(status.spl_watts as nat) + "W TDP cap"@),
        r@[4]@ == "  🧊 Cooling:          "@ + (if status.fan_curve@ == "auto"@ {
            "firmware"@
        } else {
            status.fan_curve@
        }) + " ("@ + (if status.auto_cooling {
            "auto"@
        } else {
            "manual"@
        }) + ")"@,
        r@[5]@ == "  🌡️ Temps:            CPU "@ + shown(status.cpu_temp, "°C"@) + " · GPU "@
            + shown(status.gpu_temp, "°C"@),
        r@[6]@ == "  💨 Fans:             CPU "@ + shown(status.cpu_rpm, " RPM"@) + " · GPU "@
            + shown(status.gpu_rpm, " RPM"@),
        status.is_ac ==> r@[7]@ == "  🔌 Power adapter:    "@ + "⚡ Connected (AC)"@,
        !status.is_ac ==> r@[7]@ == "  🔌 Power adapter:    "@ + "🔋 Battery (DC)"@,
        r@[8]@ == "  🔋 Battery Limit:    "@ + text::dec(status.charge_limit as nat) + "%"@,
{
    assert forall|i: int| 0 <= i < r@.len() implies text::texts(r@)[i] == #[trigger] r@[i]@ by {}
    assert(text::texts(r@).len() == 10);
}

/// A reading as it is shown: `n/a` in place of the mark for none.
pub open spec fn shown(value: i32, unit: Seq<char>) -> Seq<char> {
    if value == i32::MIN {
        "n/a"@
    } else {
        text::signed_dec(value as int) + unit
    }
}

/// The limits are told rail by rail.
pub proof fn limits_are_told_rail_by_rail(limits: (u32, u32, u32, u32), r: Vec<String>)
    requires
        call_ensures(limits_lines, (limits,), r),
    ensures
        r@.len() == 5,
        r@[1]@ == "  • SPL Min (Base):    "@ + text::dec(limits.0 as nat) + "W"@,
        r@[2]@ == "  • SPL Max (Base):    "@ + text::dec(limits.1 as nat) + "W"@,
        r@[3]@ == "  • SPPT Max (Boost):  "@ + text::dec(limits.2 as nat) + "W"@,
        r@[4]@ == "  • FPPT Max (Peak):   "@ + text::dec(limits.3 as nat) + "W"@,
{
    assert(text::texts(r@).len() == 5);
    assert forall|i: int| 0 <= i < r@.len() implies text::texts(r@)[i] == #[trigger] r@[i]@ by {}
}

/// The lines on the lock, the cooling and the mode tell what they are given.
pub proof fn lines_tell_what_they_are_given(
    preference: bool,
    locked: bool,
    lock: String,
    level: &str,
    auto: bool,
    cooling: String,
    profile: &str,
    mode: String,
)
    requires
        call_ensures(ac_lock_line, (preference, locked), lock),
        call_ensures(cooling_line, (level, auto), cooling),
        call_ensures(power_mode_line, (profile,), mode),
    ensures
        ({
            let on = if preference {
                "on"@
            } else {
                "off"@
            };
            let now = if locked {
                "LOCKED (on AC)"@
            } else {
                "unlocked"@
            };
            let by = if auto {
                "auto"@
            } else {
                "manual"@
            };
            let called = if profile@ == "power-saver"@ {
                "eco"@
            } else {
                profile@
            };
            &&& lock@ == "🔌 AC lock: "@ + on + " (preference) · currently "@ + now
            &&& cooling@ == "🧊 Cooling: "@ + level@ + " ("@ + by + ")"@
            &&& mode@ == "🔧 Power mode: "@ + called + " ("@ + profile@ + ")"@
        }),
{
}

/// A denial is recognized by either of its words, and an answer is a yes where it is empty or
/// says so.
pub proof fn denials_and_consents_are_recognized(
    message: &str,
    denial: bool,
    answer: &str,
    consent: bool,
)
    requires
        call_ensures(is_denial, (message,), denial),
        call_ensures(is_consent, (answer,), consent),
    ensures
        !denial ==> !text::has_substring(message@, "AuthFailed"@) && !text::has_substring(
            message@,
            "not authorized"@,
        ),
        text::has_substring(message@, "AuthFailed"@) || text::has_substring(
            message@,
            "not authorized"@,
        ) ==> denial,
        ({
            let a = text::folded(text::trimmed(answer@));
            consent <==> a == Seq::<char>::empty() || a == "y"@ || a == "yes"@
        }),
{
    let a = text::folded(text::trimmed(answer@));
    assert(a.len() == 0 <==> a =~= Seq::<char>::empty());
}

} // verus!
