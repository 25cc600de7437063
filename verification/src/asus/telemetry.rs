//! Battery, clock, load and memory readings on ASUS handhelds.

use crate::asus::hwmon;
use crate::asus::hwmon::HwmonCache;
use crate::asus::power_supply;
use crate::asus::thermal;
use crate::asus::thermal::GPU_HWMON_NAME;
use crate::error::HpdError;
use crate::sysfs;
use crate::sysfs::SysfsIo;
use crate::telemetry::SystemTelemetry;
use crate::text;
use crate::units::PowerMilliwatts;
use vstd::prelude::*;

verus! {

pub const CPUFREQ_ROOT: &'static str = "/sys/devices/system/cpu/cpufreq";

// ---------------------------------------------------------------------------
// Readings as numbers
// ---------------------------------------------------------------------------

/// Whether `r` is an optional reading: the failure to read it, nothing where it
/// is not there, else the number up to `max` that it holds.
pub open spec fn optional_number(
    attr: Result<Option<String>, HpdError>,
    max: nat,
    field: Seq<char>,
    reason: Seq<char>,
    r: Result<Option<u64>, HpdError>,
) -> bool {
    match attr {
        Err(e) => r == Err::<Option<u64>, HpdError>(e),
        Ok(None) => r == Ok::<Option<u64>, HpdError>(None),
        Ok(Some(raw)) => match r {
            Ok(Some(v)) => sysfs::holds_number(Ok(v), raw@, max, field, reason),
            Ok(None) => false,
            Err(e) => sysfs::holds_number(Err(e), raw@, max, field, reason),
        },
    }
}

/// An optional reading as a number up to `max`.
pub fn parse_optional(
    attr: Result<Option<String>, HpdError>,
    max: u64,
    field: &'static str,
    reason: &str,
) -> (r: Result<Option<u64>, HpdError>)
    ensures
        optional_number(attr, max as nat, field@, reason@, r),
        r matches Ok(Some(v)) ==> v <= max,
{
    match attr {
        Err(e) => Err(e),
        Ok(None) => Ok(None),
        Ok(Some(raw)) => match sysfs::parse_number(raw.as_str(), max, field, reason) {
            Ok(v) => Ok(Some(v)),
            Err(e) => Err(e),
        },
    }
}

/// The product, or `u64::MAX` where it is larger.
pub open spec fn saturated_product(a: nat, b: nat) -> nat {
    if a * b <= u64::MAX {
        a * b
    } else {
        u64::MAX as nat
    }
}

fn multiply(a: u64, b: u64) -> (r: u64)
    ensures
        r == saturated_product(a as nat, b as nat),
{
    assert(a * b <= 0xffff_ffff_ffff_ffff * 0xffff_ffff_ffff_ffff) by (nonlinear_arith)
        requires
            a <= 0xffff_ffff_ffff_ffff,
            b <= 0xffff_ffff_ffff_ffff,
    ;
    let wide: u128 = (a as u128) * (b as u128);
    if wide <= u64::MAX as u128 {
        wide as u64
    } else {
        u64::MAX
    }
}

/// Whether `r` is the power that a current and a voltage amount to; nothing
/// where one of them is not there.
pub open spec fn draw_from(
    current: Option<String>,
    voltage: Option<String>,
    r: Result<Option<PowerMilliwatts>, HpdError>,
) -> bool {
    match (current, voltage) {
        (Some(a), Some(b)) => exists|ua: Result<u64, HpdError>|
            {
                &&& #[trigger] sysfs::holds_number(
                    ua,
                    a@,
                    u64::MAX as nat,
                    "battery_current_now"@,
                    "expected integer microamps"@,
                )
                &&& match ua {
                    Err(e) => r == Err::<Option<PowerMilliwatts>, HpdError>(e),
                    Ok(micro_amps) => exists|uv: Result<u64, HpdError>|
                        {
                            &&& #[trigger] sysfs::holds_number(
                                uv,
                                b@,
                                u64::MAX as nat,
                                "battery_voltage_now"@,
                                "expected integer microvolts"@,
                            )
                            &&& match uv {
                                Err(e) => r == Err::<Option<PowerMilliwatts>, HpdError>(e),
                                Ok(micro_volts) => r == Ok::<Option<PowerMilliwatts>, HpdError>(
                                    Some(draw(micro_amps, micro_volts)),
                                ),
                            }
                        },
                }
            },
        _ => r == Ok::<Option<PowerMilliwatts>, HpdError>(None),
    }
}

/// The power of a current in microamps at a voltage in microvolts.
pub open spec fn draw(micro_amps: u64, micro_volts: u64) -> PowerMilliwatts {
    PowerMilliwatts(
        sysfs::clamp_u32(
            saturated_product(micro_amps as nat, micro_volts as nat) / 1_000_000 / 1000,
        ),
    )
}

/// The power that a current and a voltage amount to; nothing where one of them
/// is not there.
pub fn parse_draw(current: Option<String>, voltage: Option<String>) -> (r: Result<
    Option<PowerMilliwatts>,
    HpdError,
>)
    ensures
        draw_from(current, voltage, r),
{
    match (current, voltage) {
        (Some(a), Some(b)) => {
            let ua = sysfs::parse_number(
                a.as_str(),
                u64::MAX,
                "battery_current_now",
                "expected integer microamps",
            );
            let ghost gua = ua;
            assert(sysfs::holds_number(
                gua,
                a@,
                u64::MAX as nat,
                "battery_current_now"@,
                "expected integer microamps"@,
            ));
            let micro_amps: u64 = match ua {
                Ok(v) => v,
                Err(e) => {
                    return Err(e);
                },
            };
            let uv = sysfs::parse_number(
                b.as_str(),
                u64::MAX,
                "battery_voltage_now",
                "expected integer microvolts",
            );
            let ghost guv = uv;
            assert(sysfs::holds_number(
                guv,
                b@,
                u64::MAX as nat,
                "battery_voltage_now"@,
                "expected integer microvolts"@,
            ));
            let micro_volts: u64 = match uv {
                Ok(v) => v,
                Err(e) => {
                    return Err(e);
                },
            };
            let micro_watts: u64 = multiply(micro_amps, micro_volts) / 1_000_000;
            Ok(Some(PowerMilliwatts(sysfs::saturate_u32(micro_watts / 1000))))
        },
        _ => Ok(None),
    }
}

/// What is left of the design capacity, in percent; nothing where the design
/// capacity is zero.
pub open spec fn health(full: u64, design: u64) -> Option<u8> {
    let percent = saturated_product(full as nat, 100) / design as nat;
    if design == 0 {
        None
    } else if percent <= u8::MAX {
        Some(percent as u8)
    } else {
        Some(u8::MAX)
    }
}

/// What is left of the design capacity, in percent; nothing where the design
/// capacity is zero.
pub fn health_percent(full: u64, design: u64) -> (r: Option<u8>)
    ensures
        r == health(full, design),
{
    if design == 0 {
        return None;
    }
    let percent: u64 = multiply(full, 100) / design;
    if percent <= u8::MAX as u64 {
        Some(percent as u8)
    } else {
        Some(u8::MAX)
    }
}

/// The number of the line that is in force in a table of clocks: the first that
/// ends in an asterisk, and the clock that it names.
pub open spec fn active_clock(lines: Seq<Seq<char>>, from: int) -> Option<u32>
    decreases lines.len() - from,
{
    if from < 0 || from >= lines.len() {
        None
    } else if text::has_suffix(text::trimmed_end(lines[from]), "*"@) {
        clock_word(text::words(lines[from]), 0)
    } else {
        active_clock(lines, from + 1)
    }
}

/// The clock in the first word that ends in `mhz`, in any letter case.
pub open spec fn clock_word(words: Seq<Seq<char>>, from: int) -> Option<u32>
    decreases words.len() - from,
{
    if from < 0 || from >= words.len() {
        None
    } else if text::has_suffix(text::ascii_lower(words[from]), "mhz"@) {
        crate::asus::gpu_clock::mhz_of(words[from])
    } else {
        clock_word(words, from + 1)
    }
}

fn find_clock_word(words: &Vec<String>) -> (r: Option<u32>)
    ensures
        r == clock_word(text::texts(words@), 0),
{
    let ghost all = text::texts(words@);
    let mut i: usize = 0;
    while i < words.len()
        invariant
            i <= words.len(),
            all == text::texts(words@),
            clock_word(all, i as int) == clock_word(all, 0),
        decreases words.len() - i,
    {
        let lower = text::to_ascii_lowercase(words[i].as_str());
        if text::ends_with(lower.as_str(), "mhz") {
            return crate::asus::gpu_clock::mhz_value(words[i].as_str());
        }
        i = i + 1;
    }
    None
}

/// The clock in force, by the driver's table of clocks.
pub fn parse_active_dpm_mhz(raw: &str) -> (r: Option<u32>)
    ensures
        r == active_clock(text::lines_of(raw@), 0),
{
    let lines = text::lines(raw);
    let ghost all = text::texts(lines@);
    let mut i: usize = 0;
    while i < lines.len()
        invariant
            i <= lines.len(),
            all == text::texts(lines@),
            all == text::lines_of(raw@),
            active_clock(all, i as int) == active_clock(all, 0),
        decreases lines.len() - i,
    {
        if text::ends_with(text::trim_end(lines[i].as_str()), "*") {
            let words = text::split_whitespace(lines[i].as_str());
            return find_clock_word(&words);
        }
        i = i + 1;
    }
    None
}

/// `v` modulo 2^32.
pub open spec fn low_word(v: nat) -> u32 {
    (v % 0x1_0000_0000) as u32
}

// ---------------------------------------------------------------------------
// Attributes
// ---------------------------------------------------------------------------

/// Whether an attribute of the battery was read as `r`; nothing where there is
/// no battery or no such attribute.
pub open spec fn battery_gave<S: SysfsIo>(
    s: &S,
    attr: Seq<char>,
    r: Result<Option<String>, HpdError>,
) -> bool {
    exists|node: Option<String>| #[trigger]
        power_supply::first_node_gave(s, "Battery"@, node) && match node {
            None => r == Ok::<Option<String>, HpdError>(None),
            Some(base) => sysfs::attribute_gave(s, base@ + "/"@ + attr, r),
        }
}

fn read_battery<S: SysfsIo>(s: &S, attr: &str) -> (r: Result<Option<String>, HpdError>)
    ensures
        battery_gave(s, attr@, r),
{
    let node = power_supply::find_node_by_type(s, "Battery");
    assert(power_supply::first_node_gave(s, "Battery"@, node));
    match node {
        None => Ok(None),
        Some(base) => {
            let mut path = base.clone();
            path.append("/");
            path.append(attr);
            sysfs::read_attribute(s, path.as_str())
        },
    }
}

/// Whether an attribute of the GPU's device was read as `r`.
pub open spec fn device_gave<S: SysfsIo>(
    s: &S,
    attr: Seq<char>,
    r: Result<Option<String>, HpdError>,
) -> bool {
    hwmon::node_attribute_gave(s, GPU_HWMON_NAME@, "/device/"@ + attr, r)
}

/// Whether the draw of a discharging battery was read as `r`: from its power
/// where the battery tells it, else from current and voltage.
pub open spec fn discharge_gave<S: SysfsIo>(
    s: &S,
    r: Result<Option<PowerMilliwatts>, HpdError>,
) -> bool {
    exists|power: Result<Option<String>, HpdError>| #[trigger]
        battery_gave(s, "power_now"@, power) && match power {
            Err(e) => r == Err::<Option<PowerMilliwatts>, HpdError>(e),
            Ok(Some(raw)) => match r {
                Ok(Some(p)) => thermal::microwatts_from(raw@, "battery_power_now"@, Ok(p)),
                Ok(None) => false,
                Err(e) => thermal::microwatts_from(raw@, "battery_power_now"@, Err(e)),
            },
            Ok(None) => exists|a: Result<Option<String>, HpdError>| #[trigger]
                battery_gave(s, "current_now"@, a) && match a {
                    Err(e) => r == Err::<Option<PowerMilliwatts>, HpdError>(e),
                    Ok(current) => exists|b: Result<Option<String>, HpdError>| #[trigger]
                        battery_gave(s, "voltage_now"@, b) && match b {
                            Err(e) => r == Err::<Option<PowerMilliwatts>, HpdError>(e),
                            Ok(voltage) => draw_from(current, voltage, r),
                        },
                },
        }
}

/// Whether the power drawn from the battery was read as `r`: nothing unless it
/// discharges.
pub open spec fn battery_power_gave<S: SysfsIo>(
    s: &S,
    r: Result<Option<PowerMilliwatts>, HpdError>,
) -> bool {
    exists|status: Result<Option<String>, HpdError>| #[trigger]
        battery_gave(s, "status"@, status) && match status {
            Err(e) => r == Err::<Option<PowerMilliwatts>, HpdError>(e),
            Ok(None) => r == Ok::<Option<PowerMilliwatts>, HpdError>(None),
            Ok(Some(t)) => if text::trimmed(t@) != "Discharging"@ {
                r == Ok::<Option<PowerMilliwatts>, HpdError>(None)
            } else {
                discharge_gave(s, r)
            },
        }
}

/// Whether the battery's health was read as `r` from these two attributes.
pub open spec fn health_gave<S: SysfsIo>(
    s: &S,
    full_attr: Seq<char>,
    design_attr: Seq<char>,
    r: Result<Option<u8>, HpdError>,
) -> bool {
    exists|a: Result<Option<String>, HpdError>| #[trigger]
        battery_gave(s, full_attr, a) && match a {
            Err(e) => r == Err::<Option<u8>, HpdError>(e),
            Ok(None) => r == Ok::<Option<u8>, HpdError>(None),
            Ok(Some(full_raw)) => exists|b: Result<Option<String>, HpdError>| #[trigger]
                battery_gave(s, design_attr, b) && match b {
                    Err(e) => r == Err::<Option<u8>, HpdError>(e),
                    Ok(None) => r == Ok::<Option<u8>, HpdError>(None),
                    Ok(Some(design_raw)) => health_from(
                        full_raw@,
                        design_raw@,
                        full_attr,
                        design_attr,
                        r,
                    ),
                },
        }
}

/// Whether `r` is the health by the contents of the two attributes.
pub open spec fn health_from(
    full_raw: Seq<char>,
    design_raw: Seq<char>,
    full_attr: Seq<char>,
    design_attr: Seq<char>,
    r: Result<Option<u8>, HpdError>,
) -> bool {
    exists|full: Result<u64, HpdError>|
        {
            &&& #[trigger] sysfs::holds_number(
                full,
                full_raw,
                u64::MAX as nat,
                full_attr,
                "expected integer"@,
            )
            &&& match full {
                Err(e) => r == Err::<Option<u8>, HpdError>(e),
                Ok(f) => exists|design: Result<u64, HpdError>|
                    {
                        &&& #[trigger] sysfs::holds_number(
                            design,
                            design_raw,
                            u64::MAX as nat,
                            design_attr,
                            "expected integer"@,
                        )
                        &&& match design {
                            Err(e) => r == Err::<Option<u8>, HpdError>(e),
                            Ok(d) => r == Ok::<Option<u8>, HpdError>(health(f, d)),
                        }
                    },
            }
        }
}

/// The health by the contents of the two attributes.
pub fn parse_health(
    full_raw: &str,
    design_raw: &str,
    full_attr: &'static str,
    design_attr: &'static str,
) -> (r: Result<Option<u8>, HpdError>)
    ensures
        health_from(full_raw@, design_raw@, full_attr@, design_attr@, r),
{
    let full = sysfs::parse_number(full_raw, u64::MAX, full_attr, "expected integer");
    let ghost gf = full;
    assert(sysfs::holds_number(gf, full_raw@, u64::MAX as nat, full_attr@, "expected integer"@));
    let f: u64 = match full {
        Ok(v) => v,
        Err(e) => {
            return Err(e);
        },
    };
    let design = sysfs::parse_number(design_raw, u64::MAX, design_attr, "expected integer");
    let ghost gd = design;
    assert(sysfs::holds_number(
        gd,
        design_raw@,
        u64::MAX as nat,
        design_attr@,
        "expected integer"@,
    ));
    match design {
        Ok(d) => Ok(health_percent(f, d)),
        Err(e) => Err(e),
    }
}

fn read_health<S: SysfsIo>(s: &S, full_attr: &'static str, design_attr: &'static str) -> (r: Result<
    Option<u8>,
    HpdError,
>)
    ensures
        health_gave(s, full_attr@, design_attr@, r),
{
    let a = read_battery(s, full_attr);
    let ghost ga = a;
    assert(battery_gave(s, full_attr@, ga));
    let full_raw = match a {
        Err(e) => {
            return Err(e);
        },
        Ok(None) => {
            return Ok(None);
        },
        Ok(Some(raw)) => raw,
    };
    let b = read_battery(s, design_attr);
    let ghost gb = b;
    assert(battery_gave(s, design_attr@, gb));
    match b {
        Err(e) => Err(e),
        Ok(None) => Ok(None),
        Ok(Some(design_raw)) => parse_health(
            full_raw.as_str(),
            design_raw.as_str(),
            full_attr,
            design_attr,
        ),
    }
}

/// Whether the battery's health was read as `r`: by charge where the battery
/// counts charge, else by energy, else not at all.
pub open spec fn battery_health_gave<S: SysfsIo>(s: &S, r: Result<Option<u8>, HpdError>) -> bool {
    exists|charge: Result<Option<String>, HpdError>| #[trigger]
        battery_gave(s, "charge_full"@, charge) && match charge {
            Err(e) => r == Err::<Option<u8>, HpdError>(e),
            Ok(Some(_)) => health_gave(s, "charge_full"@, "charge_full_design"@, r),
            Ok(None) => exists|energy: Result<Option<String>, HpdError>| #[trigger]
                battery_gave(s, "energy_full"@, energy) && match energy {
                    Err(e) => r == Err::<Option<u8>, HpdError>(e),
                    Ok(Some(_)) => health_gave(s, "energy_full"@, "energy_full_design"@, r),
                    Ok(None) => r == Ok::<Option<u8>, HpdError>(None),
                },
        }
}

/// The file of a core's clock.
pub open spec fn policy_path(name: Seq<char>) -> Seq<char> {
    CPUFREQ_ROOT@ + "/"@ + name + "/scaling_cur_freq"@
}

/// Whether the mean clock over the entries from `from` on was read as `r`,
/// given the sum and the number of those before. Only policies count, and of
/// them those that tell their clock; one that cannot be read ends it.
pub open spec fn mean_gave<S: SysfsIo>(
    s: &S,
    names: Seq<Seq<char>>,
    from: int,
    sum: nat,
    count: nat,
    r: Result<Option<u32>, HpdError>,
) -> bool
    decreases names.len() - from,
{
    if from < 0 || from >= names.len() {
        r == Ok::<Option<u32>, HpdError>(
            if count == 0 {
                None
            } else {
                Some(low_word(sum / count / 1000))
            },
        )
    } else if !text::has_prefix(names[from], "policy"@) {
        mean_gave(s, names, from + 1, sum, count, r)
    } else {
        exists|clock: Result<Option<u64>, HpdError>| #[trigger]
            clock_gave(s, names[from], clock) && match clock {
                Err(e) => r == Err::<Option<u32>, HpdError>(e),
                Ok(None) => mean_gave(s, names, from + 1, sum, count, r),
                Ok(Some(khz)) => mean_gave(s, names, from + 1, sum + khz as nat, count + 1, r),
            }
    }
}

/// Whether the clock of a policy was read as `r`, in kilohertz.
pub open spec fn clock_gave<S: SysfsIo>(
    s: &S,
    name: Seq<char>,
    r: Result<Option<u64>, HpdError>,
) -> bool {
    exists|attr: Result<Option<String>, HpdError>| #[trigger]
        sysfs::attribute_gave(s, policy_path(name), attr) && optional_number(
            attr,
            u64::MAX as nat,
            "scaling_cur_freq"@,
            "expected integer kHz"@,
            r,
        )
}

fn read_clock<S: SysfsIo>(s: &S, name: &str) -> (r: Result<Option<u64>, HpdError>)
    ensures
        clock_gave(s, name@, r),
{
    let mut path = CPUFREQ_ROOT.to_owned();
    path.append("/");
    path.append(name);
    path.append("/scaling_cur_freq");
    let attr = sysfs::read_attribute(s, path.as_str());
    assert(sysfs::attribute_gave(s, policy_path(name@), attr));
    parse_optional(attr, u64::MAX, "scaling_cur_freq", "expected integer kHz")
}

fn mean_clock<S: SysfsIo>(s: &S, names: &Vec<String>, from: usize, sum: u128, count: u64) -> (r:
    Result<Option<u32>, HpdError>)
    requires
        from <= names.len(),
        count <= from,
        sum <= count * u64::MAX,
    ensures
        mean_gave(s, text::texts(names@), from as int, sum as nat, count as nat, r),
    decreases names.len() - from,
{
    if from == names.len() {
        if count == 0 {
            return Ok(None);
        }
        let mean: u128 = sum / (count as u128) / 1000;
        let low: u128 = mean % 0x1_0000_0000;
        return Ok(Some(low as u32));
    }
    let ghost all = text::texts(names@);
    if text::strip_prefix(names[from].as_str(), "policy").is_none() {
        return mean_clock(s, names, from + 1, sum, count);
    }
    let clock = read_clock(s, names[from].as_str());
    let ghost read = clock;
    assert(clock_gave(s, all[from as int], read));
    match clock {
        Err(e) => Err(e),
        Ok(None) => mean_clock(s, names, from + 1, sum, count),
        Ok(Some(khz)) => {
            assert(sum + khz <= (count + 1) * u64::MAX) by (nonlinear_arith)
                requires
                    sum <= count * u64::MAX,
                    khz <= u64::MAX,
            ;
            assert((count + 1) * u64::MAX <= u128::MAX) by (nonlinear_arith)
                requires
                    count <= u64::MAX,
            ;
            mean_clock(s, names, from + 1, sum + khz as u128, count + 1)
        },
    }
}

/// Whether a size in bytes was read as `r` megabytes.
pub open spec fn megabytes_gave<S: SysfsIo>(
    s: &S,
    attr: Seq<char>,
    field: Seq<char>,
    r: Result<Option<u32>, HpdError>,
) -> bool {
    exists|raw: Result<Option<String>, HpdError>, bytes: Result<Option<u64>, HpdError>|
        #[trigger] device_gave(s, attr, raw) && #[trigger] optional_number(
            raw,
            u64::MAX as nat,
            field,
            "expected integer bytes"@,
            bytes,
        ) && r == (match bytes {
            Ok(Some(b)) => Ok::<Option<u32>, HpdError>(
                Some(sysfs::clamp_u32(b as nat / (1024 * 1024))),
            ),
            Ok(None) => Ok(None),
            Err(e) => Err(e),
        })
}

/// Whether an optional reading of the device or the battery was taken as a
/// number up to `max`.
pub open spec fn percent_gave<S: SysfsIo>(
    raw: Result<Option<String>, HpdError>,
    field: Seq<char>,
    r: Result<Option<u8>, HpdError>,
) -> bool {
    exists|v: Result<Option<u64>, HpdError>| #[trigger]
        optional_number(raw, u8::MAX as nat, field, "expected u8 (0-100)"@, v) && r == (match v {
            Ok(Some(n)) => Ok::<Option<u8>, HpdError>(Some(n as u8)),
            Ok(None) => Ok(None),
            Err(e) => Err(e),
        })
}

/// A percentage from an optional reading.
fn parse_percent<S: SysfsIo>(raw: Result<Option<String>, HpdError>, field: &'static str) -> (r:
    Result<Option<u8>, HpdError>)
    ensures
        percent_gave::<S>(raw, field@, r),
{
    let v = parse_optional(raw, u8::MAX as u64, field, "expected u8 (0-100)");
    match v {
        Ok(Some(n)) => Ok(Some(n as u8)),
        Ok(None) => Ok(None),
        Err(e) => Err(e),
    }
}

/// Whether the GPU clock was read as `r`: from the node's reading where it has
/// one, else from the driver's table of clocks.
pub open spec fn gpu_clock_gave<S: SysfsIo>(s: &S, r: Result<Option<u32>, HpdError>) -> bool {
    exists|attr: Result<Option<String>, HpdError>, hz: Result<Option<u64>, HpdError>|
        #[trigger] hwmon::node_attribute_gave(s, GPU_HWMON_NAME@, "/"@ + "freq1_input"@, attr)
            && #[trigger] optional_number(
            attr,
            u64::MAX as nat,
            "gpu_freq1_input"@,
            "expected integer Hz"@,
            hz,
        ) && match hz {
            Err(e) => r == Err::<Option<u32>, HpdError>(e),
            Ok(Some(v)) => r == Ok::<Option<u32>, HpdError>(
                Some(low_word(v as nat / 1_000_000)),
            ),
            Ok(None) => exists|table: Result<Option<String>, HpdError>| #[trigger]
                device_gave(s, "pp_dpm_sclk"@, table) && r == (match table {
                    Err(e) => Err::<Option<u32>, HpdError>(e),
                    Ok(None) => Ok(None),
                    Ok(Some(t)) => Ok(active_clock(text::lines_of(t@), 0)),
                }),
        }
}

/// The readings of an ASUS handheld.
pub struct AsusTelemetryBackend<S: SysfsIo> {
    pub sysfs: S,
    pub hwmon_cache: HwmonCache,
}

impl<S: SysfsIo> AsusTelemetryBackend<S> {
    pub fn new(sysfs: S) -> (r: Self)
        ensures
            r.sysfs == sysfs,
    {
        AsusTelemetryBackend { sysfs, hwmon_cache: HwmonCache::new() }
    }

    fn read_device(&self, attr: &str) -> (r: Result<Option<String>, HpdError>)
        ensures
            device_gave(&self.sysfs, attr@, r),
    {
        let node = self.hwmon_cache.resolve(&self.sysfs, GPU_HWMON_NAME);
        assert(hwmon::hwmon_gave(&self.sysfs, GPU_HWMON_NAME@, node));
        match node {
            None => Ok(None),
            Some(base) => {
                let mut path = base.clone();
                path.append("/device/");
                path.append(attr);
                assert(path@ =~= base@ + ("/device/"@ + attr@));
                sysfs::read_attribute(&self.sysfs, path.as_str())
            },
        }
    }

    fn read_megabytes(&self, attr: &str, field: &'static str) -> (r: Result<Option<u32>, HpdError>)
        ensures
            megabytes_gave(&self.sysfs, attr@, field@, r),
    {
        let raw = self.read_device(attr);
        let ghost graw = raw;
        assert(device_gave(&self.sysfs, attr@, graw));
        let bytes = parse_optional(raw, u64::MAX, field, "expected integer bytes");
        let ghost gbytes = bytes;
        assert(optional_number(
            graw,
            u64::MAX as nat,
            field@,
            "expected integer bytes"@,
            gbytes,
        ));
        match bytes {
            Ok(Some(b)) => Ok(Some(sysfs::saturate_u32(b / (1024 * 1024)))),
            Ok(None) => Ok(None),
            Err(e) => Err(e),
        }
    }
}

impl<S: SysfsIo> SystemTelemetry for AsusTelemetryBackend<S> {
    fn get_battery_power(&self) -> (r: Result<Option<PowerMilliwatts>, HpdError>)
        ensures
            battery_power_gave(&self.sysfs, r),
    {
        let status = read_battery(&self.sysfs, "status");
        let ghost gs = status;
        assert(battery_gave(&self.sysfs, "status"@, gs));
        match status {
            Err(e) => {
                return Err(e);
            },
            Ok(None) => {
                return Ok(None);
            },
            Ok(Some(t)) => {
                if !text::same(text::trim(t.as_str()), "Discharging") {
                    return Ok(None);
                }
            },
        }
        let power = read_battery(&self.sysfs, "power_now");
        let ghost gp = power;
        assert(battery_gave(&self.sysfs, "power_now"@, gp));
        match power {
            Err(e) => {
                return Err(e);
            },
            Ok(Some(raw)) => {
                return match thermal::parse_microwatts(raw.as_str(), "battery_power_now") {
                    Ok(p) => Ok(Some(p)),
                    Err(e) => Err(e),
                };
            },
            Ok(None) => {},
        }
        let a = read_battery(&self.sysfs, "current_now");
        let ghost ga = a;
        assert(battery_gave(&self.sysfs, "current_now"@, ga));
        let current = match a {
            Ok(current) => current,
            Err(e) => {
                return Err(e);
            },
        };
        let b = read_battery(&self.sysfs, "voltage_now");
        let ghost gb = b;
        assert(battery_gave(&self.sysfs, "voltage_now"@, gb));
        match b {
            Ok(voltage) => parse_draw(current, voltage),
            Err(e) => Err(e),
        }
    }

    fn get_battery_percent(&self) -> (r: Result<Option<u8>, HpdError>)
        ensures
            exists|raw: Result<Option<String>, HpdError>| #[trigger]
                battery_gave(&self.sysfs, "capacity"@, raw) && percent_gave::<S>(
                    raw,
                    "battery_capacity"@,
                    r,
                ),
    {
        let raw = read_battery(&self.sysfs, "capacity");
        parse_percent::<S>(raw, "battery_capacity")
    }

    fn get_battery_status(&self) -> (r: Result<Option<String>, HpdError>)
        ensures
            exists|raw: Result<Option<String>, HpdError>| #[trigger]
                battery_gave(&self.sysfs, "status"@, raw) && match raw {
                    Err(e) => r == Err::<Option<String>, HpdError>(e),
                    Ok(None) => r == Ok::<Option<String>, HpdError>(None),
                    Ok(Some(t)) => r is Ok && r->Ok_0 is Some && r->Ok_0->0@ == text::trimmed(t@),
                },
    {
        let raw = read_battery(&self.sysfs, "status");
        let ghost graw = raw;
        assert(battery_gave(&self.sysfs, "status"@, graw));
        match raw {
            Err(e) => Err(e),
            Ok(None) => Ok(None),
            Ok(Some(t)) => Ok(Some(text::trim(t.as_str()).to_owned())),
        }
    }

    fn get_battery_health_pct(&self) -> (r: Result<Option<u8>, HpdError>)
        ensures
            battery_health_gave(&self.sysfs, r),
    {
        let charge = read_battery(&self.sysfs, "charge_full");
        let ghost gc = charge;
        assert(battery_gave(&self.sysfs, "charge_full"@, gc));
        match charge {
            Err(e) => {
                return Err(e);
            },
            Ok(Some(_)) => {
                return read_health(&self.sysfs, "charge_full", "charge_full_design");
            },
            Ok(None) => {},
        }
        let energy = read_battery(&self.sysfs, "energy_full");
        let ghost ge = energy;
        assert(battery_gave(&self.sysfs, "energy_full"@, ge));
        match energy {
            Err(e) => Err(e),
            Ok(Some(_)) => read_health(&self.sysfs, "energy_full", "energy_full_design"),
            Ok(None) => Ok(None),
        }
    }

    fn get_battery_cycles(&self) -> (r: Result<Option<u32>, HpdError>)
        ensures
            exists|raw: Result<Option<String>, HpdError>, v: Result<Option<u64>, HpdError>|
                #[trigger] battery_gave(&self.sysfs, "cycle_count"@, raw)
                    && #[trigger] optional_number(
                    raw,
                    u32::MAX as nat,
                    "battery_cycle_count"@,
                    "expected u32"@,
                    v,
                ) && r == (match v {
                    Ok(Some(n)) => Ok::<Option<u32>, HpdError>(Some(n as u32)),
                    Ok(None) => Ok(None),
                    Err(e) => Err(e),
                }),
    {
        let raw = read_battery(&self.sysfs, "cycle_count");
        let ghost graw = raw;
        assert(battery_gave(&self.sysfs, "cycle_count"@, graw));
        let v = parse_optional(raw, u32::MAX as u64, "battery_cycle_count", "expected u32");
        let ghost gv = v;
        assert(optional_number(
            graw,
            u32::MAX as nat,
            "battery_cycle_count"@,
            "expected u32"@,
            gv,
        ));
        match v {
            Ok(Some(n)) => Ok(Some(n as u32)),
            Ok(None) => Ok(None),
            Err(e) => Err(e),
        }
    }

    fn get_cpu_freq_mhz(&self) -> (r: Result<Option<u32>, HpdError>)
        ensures
            exists|names: Seq<Seq<char>>| #[trigger]
                sysfs::listing_gave(&self.sysfs, CPUFREQ_ROOT@, names) && mean_gave(
                    &self.sysfs,
                    names,
                    0,
                    0,
                    0,
                    r,
                ),
    {
        let names = sysfs::list(&self.sysfs, CPUFREQ_ROOT);
        mean_clock(&self.sysfs, &names, 0, 0, 0)
    }

    fn get_gpu_freq_mhz(&self) -> (r: Result<Option<u32>, HpdError>)
        ensures
            gpu_clock_gave(&self.sysfs, r),
    {
        let attr = self.hwmon_cache.read_attr(&self.sysfs, GPU_HWMON_NAME, "freq1_input");
        let ghost gattr = attr;
        assert(hwmon::node_attribute_gave(
            &self.sysfs,
            GPU_HWMON_NAME@,
            "/"@ + "freq1_input"@,
            gattr,
        ));
        let hz = parse_optional(attr, u64::MAX, "gpu_freq1_input", "expected integer Hz");
        let ghost ghz = hz;
        assert(optional_number(
            gattr,
            u64::MAX as nat,
            "gpu_freq1_input"@,
            "expected integer Hz"@,
            ghz,
        ));
        match hz {
            Err(e) => {
                return Err(e);
            },
            Ok(Some(v)) => {
                let low: u64 = (v / 1_000_000) % 0x1_0000_0000;
                return Ok(Some(low as u32));
            },
            Ok(None) => {},
        }
        let table = self.read_device("pp_dpm_sclk");
        let ghost gtable = table;
        assert(device_gave(&self.sysfs, "pp_dpm_sclk"@, gtable));
        match table {
            Err(e) => Err(e),
            Ok(None) => Ok(None),
            Ok(Some(t)) => Ok(parse_active_dpm_mhz(t.as_str())),
        }
    }

    fn get_gpu_busy_pct(&self) -> (r: Result<Option<u8>, HpdError>)
        ensures
            exists|raw: Result<Option<String>, HpdError>| #[trigger]
                device_gave(&self.sysfs, "gpu_busy_percent"@, raw) && percent_gave::<S>(
                    raw,
                    "gpu_busy_percent"@,
                    r,
                ),
    {
        let raw = self.read_device("gpu_busy_percent");
        parse_percent::<S>(raw, "gpu_busy_percent")
    }

    fn get_vram_used_mb(&self) -> (r: Result<Option<u32>, HpdError>)
        ensures
            megabytes_gave(&self.sysfs, "mem_info_vram_used"@, "vram_used"@, r),
    {
        self.read_megabytes("mem_info_vram_used", "vram_used")
    }

    fn get_vram_total_mb(&self) -> (r: Result<Option<u32>, HpdError>)
        ensures
            megabytes_gave(&self.sysfs, "mem_info_vram_total"@, "vram_total"@, r),
    {
        self.read_megabytes("mem_info_vram_total", "vram_total")
    }
}

// ---------------------------------------------------------------------------
// Laws
// ---------------------------------------------------------------------------

/// A power from current and voltage is their product: microamps and microvolts come to a
/// milliwatt a thousand million at a time, as far as that can be counted.
pub proof fn draw_is_current_times_voltage(micro_amps: u64, micro_volts: u64)
    ensures
        micro_amps * micro_volts <= u64::MAX && micro_amps * micro_volts / 1_000_000_000 <= u32::MAX
            ==> draw(micro_amps, micro_volts).0 * 1_000_000_000 <= micro_amps * micro_volts
            && micro_amps * micro_volts < (draw(micro_amps, micro_volts).0 + 1) * 1_000_000_000,
        draw(micro_amps, micro_volts) == draw(micro_volts, micro_amps),
{
    let p = micro_amps * micro_volts;
    assert(micro_amps * micro_volts == micro_volts * micro_amps) by (nonlinear_arith);
    assert(p >= 0) by (nonlinear_arith)
        requires
            p == micro_amps * micro_volts,
    ;
    assert(p / 1_000_000 / 1000 == p / 1_000_000_000);
}

/// Health is what is left of the design, in percent: the whole of it is a hundred, nothing is
/// zero, and there is none without a design.
pub proof fn health_is_what_is_left_of_the_design(full: u64, design: u64, r: Option<u8>)
    requires
        call_ensures(health_percent, (full, design), r),
    ensures
        design == 0 <==> r is None,
        r matches Some(percent) ==> {
            &&& full <= design && full * 100 <= u64::MAX ==> percent <= 100 && percent * design
                <= full * 100 && full * 100 < (percent + 1) * design
            &&& full == design && full * 100 <= u64::MAX ==> percent == 100
            &&& full == 0 ==> percent == 0
        },
{
    if design > 0 && full * 100 <= u64::MAX {
        let (f, d) = ((full * 100) as int, design as int);
        vstd::arithmetic::div_mod::lemma_fundamental_div_mod(f, d);
        let q = f / d;
        assert(q * d == d * q) by (nonlinear_arith);
        assert((q + 1) * d == d * q + d) by (nonlinear_arith);
        if full <= design {
            assert(q <= 100) by (nonlinear_arith)
                requires
                    d * q <= f,
                    f <= 100 * d,
                    d > 0,
            ;
        }
        if full == design {
            assert(q >= 100) by (nonlinear_arith)
                requires
                    f < d * q + d,
                    f == 100 * d,
                    d > 0,
            ;
        }
        if full == 0 {
            assert(q == 0) by (nonlinear_arith)
                requires
                    d * q <= 0,
                    0 < d * q + d,
                    d > 0,
            ;
        }
    }
}

/// The mean clock lies between the lowest and the highest of the clocks that count.
pub proof fn mean_lies_between_the_clocks<S: SysfsIo>(
    s: &S,
    names: Seq<Seq<char>>,
    low: nat,
    high: nat,
    r: Result<Option<u32>, HpdError>,
)
    requires
        mean_gave(s, names, 0, 0, 0, r),
        forall|name: Seq<char>, khz: u64|
            #[trigger] clock_gave(s, name, Ok(Some(khz))) ==> low <= khz <= high,
        high / 1000 <= u32::MAX,
    ensures
        r matches Ok(Some(mhz)) ==> low / 1000 <= mhz <= high / 1000,
{
    lemma_mean_between(s, names, 0, 0, 0, low, high, r);
}

proof fn lemma_mean_between<S: SysfsIo>(
    s: &S,
    names: Seq<Seq<char>>,
    from: int,
    sum: nat,
    count: nat,
    low: nat,
    high: nat,
    r: Result<Option<u32>, HpdError>,
)
    requires
        mean_gave(s, names, from, sum, count, r),
        forall|name: Seq<char>, khz: u64|
            #[trigger] clock_gave(s, name, Ok(Some(khz))) ==> low <= khz <= high,
        high / 1000 <= u32::MAX,
        low * count <= sum <= high * count,
    ensures
        r matches Ok(Some(mhz)) ==> low / 1000 <= mhz <= high / 1000,
    decreases names.len() - from,
{
    if from < 0 || from >= names.len() {
        if count > 0 {
            vstd::arithmetic::div_mod::lemma_fundamental_div_mod(sum as int, count as int);
            let mean = sum / count;
            assert(low <= mean <= high) by (nonlinear_arith)
                requires
                    sum == count * mean + sum % count,
                    0 <= sum % count < count,
                    low * count <= sum <= high * count,
            ;
        }
    } else if !text::has_prefix(names[from], "policy"@) {
        lemma_mean_between(s, names, from + 1, sum, count, low, high, r);
    } else {
        let clock = choose|clock: Result<Option<u64>, HpdError>| #[trigger]
            clock_gave(s, names[from], clock) && match clock {
                Err(e) => r == Err::<Option<u32>, HpdError>(e),
                Ok(None) => mean_gave(s, names, from + 1, sum, count, r),
                Ok(Some(khz)) => mean_gave(s, names, from + 1, sum + khz as nat, count + 1, r),
            };
        match clock {
            Ok(None) => lemma_mean_between(s, names, from + 1, sum, count, low, high, r),
            Ok(Some(khz)) => {
                assert(low <= khz <= high);
                assert(low * (count + 1) <= sum + khz <= high * (count + 1)) by (nonlinear_arith)
                    requires
                        low * count <= sum <= high * count,
                        low <= khz <= high,
                ;
                lemma_mean_between(
                    s,
                    names,
                    from + 1,
                    sum + khz as nat,
                    count + 1,
                    low,
                    high,
                    r,
                );
            },
            Err(_) => {},
        }
    }
}

/// A size in megabytes is one in bytes, 2^20 to each, rounded down.
pub proof fn megabytes_are_whole<S: SysfsIo>(
    s: &S,
    attr: Seq<char>,
    field: Seq<char>,
    r: Result<Option<u32>, HpdError>,
)
    requires
        megabytes_gave(s, attr, field, r),
    ensures
        r matches Ok(Some(mb)) ==> exists|raw: String| #[trigger]
            device_gave(s, attr, Ok(Some(raw))) && (text::unsigned_value(
                text::trimmed(raw@),
            ) matches Some(bytes) && mb * 0x10_0000 <= bytes && (mb < u32::MAX ==> bytes < (mb + 1)
                * 0x10_0000)),
{
    if let Ok(Some(mb)) = r {
        let (raw, bytes) = choose|
            raw: Result<Option<String>, HpdError>,
            bytes: Result<Option<u64>, HpdError>,
        |
            #[trigger] device_gave(s, attr, raw) && #[trigger] optional_number(
                raw,
                u64::MAX as nat,
                field,
                "expected integer bytes"@,
                bytes,
            ) && r == (match bytes {
                Ok(Some(b)) => Ok::<Option<u32>, HpdError>(
                    Some(sysfs::clamp_u32(b as nat / (1024 * 1024))),
                ),
                Ok(None) => Ok(None),
                Err(e) => Err(e),
            });
        assert(raw is Ok && raw->Ok_0 is Some);
        let text = raw->Ok_0->0;
        assert(device_gave(s, attr, Ok(Some(text))));
    }
}

/// Each reading comes from its own attribute.
pub proof fn readings_come_from_their_attributes<S: SysfsIo>(
    backend: AsusTelemetryBackend<S>,
    percent: Result<Option<u8>, HpdError>,
    busy: Result<Option<u8>, HpdError>,
    used: Result<Option<u32>, HpdError>,
    total: Result<Option<u32>, HpdError>,
)
    requires
        call_ensures(
            <AsusTelemetryBackend<S> as SystemTelemetry>::get_battery_percent,
            (&backend,),
            percent,
        ),
        call_ensures(
            <AsusTelemetryBackend<S> as SystemTelemetry>::get_gpu_busy_pct,
            (&backend,),
            busy,
        ),
        call_ensures(
            <AsusTelemetryBackend<S> as SystemTelemetry>::get_vram_used_mb,
            (&backend,),
            used,
        ),
        call_ensures(
            <AsusTelemetryBackend<S> as SystemTelemetry>::get_vram_total_mb,
            (&backend,),
            total,
        ),
    ensures
        percent matches Ok(Some(p)) ==> exists|raw: String| #[trigger]
            battery_gave(&backend.sysfs, "capacity"@, Ok(Some(raw))) && text::unsigned_value(
                text::trimmed(raw@),
            ) == Some(p as nat),
        busy matches Ok(Some(p)) ==> exists|raw: String| #[trigger]
            device_gave(&backend.sysfs, "gpu_busy_percent"@, Ok(Some(raw)))
                && text::unsigned_value(text::trimmed(raw@)) == Some(p as nat),
        used matches Ok(Some(_)) ==> exists|raw: String| #[trigger]
            device_gave(&backend.sysfs, "mem_info_vram_used"@, Ok(Some(raw))),
        total matches Ok(Some(_)) ==> exists|raw: String| #[trigger]
            device_gave(&backend.sysfs, "mem_info_vram_total"@, Ok(Some(raw))),
{
    megabytes_are_whole(&backend.sysfs, "mem_info_vram_used"@, "vram_used"@, used);
    megabytes_are_whole(&backend.sysfs, "mem_info_vram_total"@, "vram_total"@, total);
    if let Ok(Some(p)) = percent {
        let raw = choose|raw: Result<Option<String>, HpdError>| #[trigger]
            battery_gave(&backend.sysfs, "capacity"@, raw) && percent_gave::<S>(
                raw,
                "battery_capacity"@,
                percent,
            );
        assert(raw is Ok && raw->Ok_0 is Some);
        assert(battery_gave(&backend.sysfs, "capacity"@, Ok(Some(raw->Ok_0->0))));
    }
    if let Ok(Some(p)) = busy {
        let raw = choose|raw: Result<Option<String>, HpdError>| #[trigger]
            device_gave(&backend.sysfs, "gpu_busy_percent"@, raw) && percent_gave::<S>(
                raw,
                "gpu_busy_percent"@,
                busy,
            );
        assert(raw is Ok && raw->Ok_0 is Some);
        assert(device_gave(&backend.sysfs, "gpu_busy_percent"@, Ok(Some(raw->Ok_0->0))));
    }
}

/// A battery that does not discharge draws nothing that is told.
pub proof fn only_a_discharging_battery_draws<S: SysfsIo>(
    s: &S,
    r: Result<Option<PowerMilliwatts>, HpdError>,
)
    requires
        battery_power_gave(s, r),
    ensures
        r matches Ok(Some(_)) ==> exists|status: String| #[trigger]
            battery_gave(s, "status"@, Ok(Some(status))) && text::trimmed(status@)
                == "Discharging"@,
{
    if let Ok(Some(p)) = r {
        let status = choose|status: Result<Option<String>, HpdError>| #[trigger]
            battery_gave(s, "status"@, status) && match status {
                Err(e) => r == Err::<Option<PowerMilliwatts>, HpdError>(e),
                Ok(None) => r == Ok::<Option<PowerMilliwatts>, HpdError>(None),
                Ok(Some(t)) => if text::trimmed(t@) != "Discharging"@ {
                    r == Ok::<Option<PowerMilliwatts>, HpdError>(None)
                } else {
                    discharge_gave(s, r)
                },
            };
        assert(status is Ok && status->Ok_0 is Some);
        assert(battery_gave(s, "status"@, Ok(Some(status->Ok_0->0))));
    }
}

/// Current and voltage come to their product, as the battery writes them: microamps and
/// microvolts.
pub proof fn current_and_voltage_come_to_their_product(
    a: String,
    b: String,
    micro_amps: u64,
    micro_volts: u64,
    r: Result<Option<PowerMilliwatts>, HpdError>,
)
    requires
        call_ensures(parse_draw, (Some(a), Some(b)), r),
        text::trimmed(a@) == text::dec(micro_amps as nat),
        text::trimmed(b@) == text::dec(micro_volts as nat),
        micro_amps * micro_volts <= u64::MAX,
        micro_amps * micro_volts / 1_000_000_000 <= u32::MAX,
    ensures
        r matches Ok(Some(p)) && p.0 * 1_000_000_000 <= micro_amps * micro_volts && micro_amps
            * micro_volts < (p.0 + 1) * 1_000_000_000,
{
    text::decimals_are_read_back(micro_amps as nat);
    text::decimals_are_read_back(micro_volts as nat);
    draw_is_current_times_voltage(micro_amps, micro_volts);
}

/// The health of a battery is the first of the two numbers held against the second, in
/// percent.
pub proof fn health_holds_full_against_design(
    full_raw: &str,
    design_raw: &str,
    full_attr: &'static str,
    design_attr: &'static str,
    full: u64,
    design: u64,
    r: Result<Option<u8>, HpdError>,
)
    requires
        call_ensures(parse_health, (full_raw, design_raw, full_attr, design_attr), r),
        text::trimmed(full_raw@) == text::dec(full as nat),
        text::trimmed(design_raw@) == text::dec(design as nat),
        0 < design,
        full <= design,
        full * 100 <= u64::MAX,
    ensures
        r matches Ok(Some(percent)) && percent * design <= full * 100 && full * 100 < (percent + 1)
            * design,
{
    text::decimals_are_read_back(full as nat);
    text::decimals_are_read_back(design as nat);
    let f = (full * 100) as int;
    let d = design as int;
    vstd::arithmetic::div_mod::lemma_fundamental_div_mod(f, d);
    let q = f / d;
    assert(q * d == d * q) by (nonlinear_arith);
    assert((q + 1) * d == d * q + d) by (nonlinear_arith);
    assert(q <= 100) by (nonlinear_arith)
        requires
            d * q <= f,
            f <= 100 * d,
            d > 0,
    ;
}

/// What a discharging battery draws is what it tells of its power, or else of its current
/// and its voltage.
pub proof fn draws_are_what_the_battery_tells<S: SysfsIo>(
    backend: AsusTelemetryBackend<S>,
    r: Result<Option<PowerMilliwatts>, HpdError>,
)
    requires
        call_ensures(
            <AsusTelemetryBackend<S> as SystemTelemetry>::get_battery_power,
            (&backend,),
            r,
        ),
    ensures
        r matches Ok(Some(p)) ==> {
            ||| exists|raw: String| #[trigger]
                battery_gave(&backend.sysfs, "power_now"@, Ok(Some(raw))) && (text::unsigned_value(
                    text::trimmed(raw@),
                ) matches Some(micro) && p.0 * 1000 <= micro && (p.0 < u32::MAX ==> micro < p.0
                    * 1000 + 1000))
            ||| battery_gave(&backend.sysfs, "power_now"@, Ok(None)) && exists|a: String, b: String|
                #[trigger] battery_gave(&backend.sysfs, "current_now"@, Ok(Some(a)))
                    && #[trigger] battery_gave(&backend.sysfs, "voltage_now"@, Ok(Some(b)))
                    && draw_from(Some(a), Some(b), r)
        },
{
    let s = &backend.sysfs;
    only_a_discharging_battery_draws(s, r);
    if let Ok(Some(p)) = r {
        assert(discharge_gave(s, r));
        let power = choose|power: Result<Option<String>, HpdError>| #[trigger]
            battery_gave(s, "power_now"@, power) && match power {
                Err(e) => false,
                Ok(Some(raw)) => thermal::microwatts_from(raw@, "battery_power_now"@, Ok(p)),
                Ok(None) => exists|a: Result<Option<String>, HpdError>| #[trigger]
                    battery_gave(s, "current_now"@, a) && match a {
                        Err(e) => false,
                        Ok(current) => exists|b: Result<Option<String>, HpdError>| #[trigger]
                            battery_gave(s, "voltage_now"@, b) && match b {
                                Err(e) => false,
                                Ok(voltage) => draw_from(current, voltage, r),
                            },
                    },
            };
        if power->Ok_0 is Some {
            let raw = power->Ok_0->0;
            assert(power == Ok::<Option<String>, HpdError>(Some(raw)));
        } else {
            assert(power == Ok::<Option<String>, HpdError>(None));
            let a = choose|a: Result<Option<String>, HpdError>| #[trigger]
                battery_gave(s, "current_now"@, a) && match a {
                    Err(e) => false,
                    Ok(current) => exists|b: Result<Option<String>, HpdError>| #[trigger]
                        battery_gave(s, "voltage_now"@, b) && match b {
                            Err(e) => false,
                            Ok(voltage) => draw_from(current, voltage, r),
                        },
                };
            let b = choose|b: Result<Option<String>, HpdError>| #[trigger]
                battery_gave(s, "voltage_now"@, b) && match b {
                    Err(e) => false,
                    Ok(voltage) => draw_from(a->Ok_0, voltage, r),
                };
            let (x, y) = (a->Ok_0->0, b->Ok_0->0);
            assert(a == Ok::<Option<String>, HpdError>(Some(x)));
            assert(b == Ok::<Option<String>, HpdError>(Some(y)));
        }
    }
}

/// The health is what is left of the charge, or else of the energy; the two are not mixed.
pub proof fn health_is_told_in_one_unit<S: SysfsIo>(
    backend: AsusTelemetryBackend<S>,
    r: Result<Option<u8>, HpdError>,
)
    requires
        call_ensures(
            <AsusTelemetryBackend<S> as SystemTelemetry>::get_battery_health_pct,
            (&backend,),
            r,
        ),
    ensures
        r matches Ok(Some(_)) ==> {
            ||| health_gave(&backend.sysfs, "charge_full"@, "charge_full_design"@, r)
            ||| battery_gave(&backend.sysfs, "charge_full"@, Ok(None)) && health_gave(
                &backend.sysfs,
                "energy_full"@,
                "energy_full_design"@,
                r,
            )
        },
{
}

/// Status and cycles are told as the battery writes them.
pub proof fn status_and_cycles_are_told_as_written<S: SysfsIo>(
    backend: AsusTelemetryBackend<S>,
    status: Result<Option<String>, HpdError>,
    cycles: Result<Option<u32>, HpdError>,
)
    requires
        call_ensures(
            <AsusTelemetryBackend<S> as SystemTelemetry>::get_battery_status,
            (&backend,),
            status,
        ),
        call_ensures(
            <AsusTelemetryBackend<S> as SystemTelemetry>::get_battery_cycles,
            (&backend,),
            cycles,
        ),
    ensures
        status matches Ok(Some(word)) ==> exists|raw: String| #[trigger]
            battery_gave(&backend.sysfs, "status"@, Ok(Some(raw))) && word@ == text::trimmed(raw@),
        cycles matches Ok(Some(n)) ==> exists|raw: String| #[trigger]
            battery_gave(&backend.sysfs, "cycle_count"@, Ok(Some(raw))) && text::unsigned_value(
                text::trimmed(raw@),
            ) == Some(n as nat),
{
    let s = &backend.sysfs;
    if let Ok(Some(word)) = status {
        let raw = choose|raw: Result<Option<String>, HpdError>| #[trigger]
            battery_gave(s, "status"@, raw) && match raw {
                Err(e) => false,
                Ok(None) => false,
                Ok(Some(t)) => word@ == text::trimmed(t@),
            };
        let t = raw->Ok_0->0;
        assert(raw == Ok::<Option<String>, HpdError>(Some(t)));
    }
    if let Ok(Some(n)) = cycles {
        let (raw, v) = choose|raw: Result<Option<String>, HpdError>, v: Result<Option<u64>, HpdError>|
            #[trigger] battery_gave(s, "cycle_count"@, raw) && #[trigger] optional_number(
                raw,
                u32::MAX as nat,
                "battery_cycle_count"@,
                "expected u32"@,
                v,
            ) && (match v {
                Ok(Some(m)) => n == m as u32,
                Ok(None) => false,
                Err(e) => false,
            });
        let t = raw->Ok_0->0;
        assert(raw == Ok::<Option<String>, HpdError>(Some(t)));
    }
}

/// The GPU clock is told in megahertz: from the node, which tells it in hertz, or else from
/// the table of clocks.
pub proof fn gpu_clock_is_told_in_megahertz<S: SysfsIo>(
    backend: AsusTelemetryBackend<S>,
    r: Result<Option<u32>, HpdError>,
)
    requires
        call_ensures(
            <AsusTelemetryBackend<S> as SystemTelemetry>::get_gpu_freq_mhz,
            (&backend,),
            r,
        ),
    ensures
        r matches Ok(Some(mhz)) ==> {
            ||| exists|raw: String| #[trigger]
                hwmon::node_attribute_gave(
                    &backend.sysfs,
                    "amdgpu"@,
                    "/"@ + "freq1_input"@,
                    Ok(Some(raw)),
                ) && (text::unsigned_value(text::trimmed(raw@)) matches Some(hz) && (hz
                    < 0x1_0000_0000 * 1_000_000 ==> mhz * 1_000_000 <= hz && hz < (mhz + 1)
                    * 1_000_000))
            ||| exists|table: String| #[trigger]
                device_gave(&backend.sysfs, "pp_dpm_sclk"@, Ok(Some(table))) && active_clock(
                    text::lines_of(table@),
                    0,
                ) == Some(mhz)
        },
{
    let s = &backend.sysfs;
    if let Ok(Some(mhz)) = r {
        let (attr, hz) = choose|
            attr: Result<Option<String>, HpdError>,
            hz: Result<Option<u64>, HpdError>,
        |
            #[trigger] hwmon::node_attribute_gave(s, "amdgpu"@, "/"@ + "freq1_input"@, attr)
                && #[trigger] optional_number(
                attr,
                u64::MAX as nat,
                "gpu_freq1_input"@,
                "expected integer Hz"@,
                hz,
            ) && match hz {
                Err(e) => false,
                Ok(Some(v)) => mhz == low_word(v as nat / 1_000_000),
                Ok(None) => exists|table: Result<Option<String>, HpdError>| #[trigger]
                    device_gave(s, "pp_dpm_sclk"@, table) && (match table {
                        Err(e) => false,
                        Ok(None) => false,
                        Ok(Some(t)) => Some(mhz) == active_clock(text::lines_of(t@), 0),
                    }),
            };
        if hz->Ok_0 is Some {
            let raw = attr->Ok_0->0;
            assert(attr == Ok::<Option<String>, HpdError>(Some(raw)));
        } else {
            let table = choose|table: Result<Option<String>, HpdError>| #[trigger]
                device_gave(s, "pp_dpm_sclk"@, table) && (match table {
                    Err(e) => false,
                    Ok(None) => false,
                    Ok(Some(t)) => Some(mhz) == active_clock(text::lines_of(t@), 0),
                });
            let t = table->Ok_0->0;
            assert(table == Ok::<Option<String>, HpdError>(Some(t)));
        }
    }
}

/// Of a table of clocks the one in force is on the line with the asterisk.
pub proof fn the_marked_clock_is_in_force(raw: &str, i: int, mhz: u32, r: Option<u32>)
    requires
        call_ensures(parse_active_dpm_mhz, (raw,), r),
        0 <= i < text::lines_of(raw@).len(),
        text::has_suffix(text::trimmed_end(text::lines_of(raw@)[i]), "*"@),
        forall|k: int|
            0 <= k < i ==> !text::has_suffix(
                text::trimmed_end(#[trigger] text::lines_of(raw@)[k]),
                "*"@,
            ),
        text::words(text::lines_of(raw@)[i]).len() > 1,
        text::words(text::lines_of(raw@)[i])[1] == crate::asus::gpu_clock::in_megahertz(mhz),
        !text::has_suffix(text::ascii_lower(text::words(text::lines_of(raw@)[i])[0]), "mhz"@),
    ensures
        r == Some(mhz),
{
    let words = text::words(text::lines_of(raw@)[i]);
    crate::asus::gpu_clock::clocks_are_read_with_their_unit(mhz);
    reveal_strlit("Mhz");
    reveal_strlit("mhz");
    text::decimals_are_read_back(mhz as nat);
    let w = text::ascii_lower(words[1]);
    assert(w.skip(w.len() - 3) =~= "mhz"@);
    reveal_with_fuel(clock_word, 3);
    lemma_marked(text::lines_of(raw@), 0, i);
}

proof fn lemma_marked(lines: Seq<Seq<char>>, from: int, i: int)
    requires
        0 <= from <= i < lines.len(),
        text::has_suffix(text::trimmed_end(lines[i]), "*"@),
        forall|k: int|
            from <= k < i ==> !text::has_suffix(text::trimmed_end(#[trigger] lines[k]), "*"@),
    ensures
        active_clock(lines, from) == clock_word(text::words(lines[i]), 0),
    decreases i - from,
{
    if from < i {
        lemma_marked(lines, from + 1, i);
    }
}

} // verus!
