//! What the device reports of itself: temperatures, fans, battery, clocks, load
//! and memory. A reading that the device does not have, or that failed, is left
//! out.

use crate::backend::HwBackend;
use crate::error::HpdError;
use crate::fan::FanControl;
use crate::telemetry::SystemTelemetry;
use crate::thermal::ThermalSensors;
use crate::units::{Celsius, PowerMilliwatts, Rpm};
use vstd::prelude::*;

verus! {

/// What stands for a missing reading in a status of bare numbers. Zero would not
/// do: it is what a stopped fan reads.
pub const TELEMETRY_UNAVAILABLE: i32 = i32::MIN;

/// What there is of a reading.
pub open spec fn present<T>(r: Result<Option<T>, HpdError>) -> Option<T> {
    match r {
        Ok(reading) => reading,
        Err(_) => None,
    }
}

fn keep_present<T>(r: Result<Option<T>, HpdError>) -> (v: Option<T>)
    ensures
        v == present(r),
{
    match r {
        Ok(reading) => reading,
        Err(_) => None,
    }
}

// ---------------------------------------------------------------------------
// Reading
// ---------------------------------------------------------------------------

/// The readings of the thermal sensors.
#[derive(Debug)]
pub struct ThermalReadings {
    pub cpu_temp: Option<Celsius>,
    pub gpu_temp: Option<Celsius>,
    pub soc_power: Option<PowerMilliwatts>,
}

/// The readings of the fans.
#[derive(Debug)]
pub struct FanReadings {
    pub cpu_fan: Option<Rpm>,
    pub gpu_fan: Option<Rpm>,
}

/// The readings of the battery, the clocks, the load and the memory.
#[derive(Debug)]
pub struct SystemReadings {
    /// The power drawn from the battery.
    pub battery_power: Option<PowerMilliwatts>,
    /// How full the battery is, in percent.
    pub battery_percent: Option<u8>,
    /// The kernel's word for what the battery is doing.
    pub battery_status: Option<String>,
    /// What is left of the design capacity, in percent.
    pub battery_health_pct: Option<u8>,
    /// The charge cycles of the battery.
    pub battery_cycles: Option<u32>,
    /// The mean CPU clock.
    pub cpu_freq_mhz: Option<u32>,
    /// The GPU clock.
    pub gpu_freq_mhz: Option<u32>,
    /// The GPU load, in percent.
    pub gpu_busy_pct: Option<u8>,
    /// The CPU load, in percent.
    pub cpu_busy_pct: Option<u8>,
    /// The video memory in use.
    pub vram_used_mb: Option<u32>,
    /// The video memory there is.
    pub vram_total_mb: Option<u32>,
    /// The GPU's throttle bits.
    pub gpu_throttle_status: Option<u64>,
}

/// Whether the sensors gave these readings.
pub open spec fn sensors_gave<T: ThermalSensors + ?Sized>(t: &T, r: ThermalReadings) -> bool {
    &&& exists|a: Result<Option<Celsius>, HpdError>| #[trigger]
        call_ensures(T::get_cpu_temp, (t,), a) && r.cpu_temp == present(a)
    &&& exists|a: Result<Option<Celsius>, HpdError>| #[trigger]
        call_ensures(T::get_gpu_temp, (t,), a) && r.gpu_temp == present(a)
    &&& exists|a: Result<Option<PowerMilliwatts>, HpdError>| #[trigger]
        call_ensures(T::get_soc_power, (t,), a) && r.soc_power == present(a)
}

fn read_sensors<T: ThermalSensors + ?Sized>(t: &T) -> (r: ThermalReadings)
    ensures
        sensors_gave(t, r),
{
    let a = t.get_cpu_temp();
    let ghost cpu_temp_read = a;
    assert(call_ensures(T::get_cpu_temp, (t,), cpu_temp_read));
    let cpu_temp = keep_present(a);
    let a = t.get_gpu_temp();
    let ghost gpu_temp_read = a;
    assert(call_ensures(T::get_gpu_temp, (t,), gpu_temp_read));
    let gpu_temp = keep_present(a);
    let a = t.get_soc_power();
    let ghost soc_power_read = a;
    assert(call_ensures(T::get_soc_power, (t,), soc_power_read));
    let soc_power = keep_present(a);
    ThermalReadings { cpu_temp, gpu_temp, soc_power }
}

/// Whether the fans gave these readings.
pub open spec fn fans_gave<F: FanControl + ?Sized>(f: &F, r: FanReadings) -> bool {
    &&& exists|a: Result<Rpm, HpdError>| #[trigger]
        call_ensures(F::get_cpu_fan_rpm, (f,), a) && r.cpu_fan == (match a {
            Ok(rpm) => Some(rpm),
            Err(_) => None,
        })
    &&& exists|a: Result<Option<Rpm>, HpdError>| #[trigger]
        call_ensures(F::get_gpu_fan_rpm, (f,), a) && r.gpu_fan == present(a)
}

fn read_fans<F: FanControl + ?Sized>(f: &F) -> (r: FanReadings)
    ensures
        fans_gave(f, r),
{
    let a = f.get_cpu_fan_rpm();
    let ghost cpu_read = a;
    assert(call_ensures(F::get_cpu_fan_rpm, (f,), cpu_read));
    let cpu_fan = match a {
        Ok(rpm) => Some(rpm),
        Err(_) => None,
    };
    let b = f.get_gpu_fan_rpm();
    let ghost gpu_read = b;
    assert(call_ensures(F::get_gpu_fan_rpm, (f,), gpu_read));
    let gpu_fan = keep_present(b);
    FanReadings { cpu_fan, gpu_fan }
}

/// Whether the system gave these readings.
pub open spec fn system_gave<S: SystemTelemetry + ?Sized>(s: &S, r: SystemReadings) -> bool {
    &&& exists|a: Result<Option<PowerMilliwatts>, HpdError>| #[trigger]
        call_ensures(S::get_battery_power, (s,), a) && r.battery_power == present(a)
    &&& exists|a: Result<Option<u8>, HpdError>| #[trigger]
        call_ensures(S::get_battery_percent, (s,), a) && r.battery_percent == present(a)
    &&& exists|a: Result<Option<String>, HpdError>| #[trigger]
        call_ensures(S::get_battery_status, (s,), a) && r.battery_status == present(a)
    &&& exists|a: Result<Option<u8>, HpdError>| #[trigger]
        call_ensures(S::get_battery_health_pct, (s,), a) && r.battery_health_pct == present(a)
    &&& exists|a: Result<Option<u32>, HpdError>| #[trigger]
        call_ensures(S::get_battery_cycles, (s,), a) && r.battery_cycles == present(a)
    &&& exists|a: Result<Option<u32>, HpdError>| #[trigger]
        call_ensures(S::get_cpu_freq_mhz, (s,), a) && r.cpu_freq_mhz == present(a)
    &&& exists|a: Result<Option<u32>, HpdError>| #[trigger]
        call_ensures(S::get_gpu_freq_mhz, (s,), a) && r.gpu_freq_mhz == present(a)
    &&& exists|a: Result<Option<u8>, HpdError>| #[trigger]
        call_ensures(S::get_gpu_busy_pct, (s,), a) && r.gpu_busy_pct == present(a)
    &&& exists|a: Result<Option<u8>, HpdError>| #[trigger]
        call_ensures(S::get_cpu_busy_pct, (s,), a) && r.cpu_busy_pct == present(a)
    &&& exists|a: Result<Option<u32>, HpdError>| #[trigger]
        call_ensures(S::get_vram_used_mb, (s,), a) && r.vram_used_mb == present(a)
    &&& exists|a: Result<Option<u32>, HpdError>| #[trigger]
        call_ensures(S::get_vram_total_mb, (s,), a) && r.vram_total_mb == present(a)
    &&& exists|a: Result<Option<u64>, HpdError>| #[trigger]
        call_ensures(S::get_gpu_throttle_status, (s,), a) && r.gpu_throttle_status == present(a)
}

fn read_system<S: SystemTelemetry + ?Sized>(s: &S) -> (r: SystemReadings)
    ensures
        system_gave(s, r),
{
    let a = s.get_battery_power();
    let ghost battery_power_read = a;
    assert(call_ensures(S::get_battery_power, (s,), battery_power_read));
    let battery_power = keep_present(a);
    let a = s.get_battery_percent();
    let ghost battery_percent_read = a;
    assert(call_ensures(S::get_battery_percent, (s,), battery_percent_read));
    let battery_percent = keep_present(a);
    let a = s.get_battery_status();
    let ghost battery_status_read = a;
    assert(call_ensures(S::get_battery_status, (s,), battery_status_read));
    let battery_status = keep_present(a);
    let a = s.get_battery_health_pct();
    let ghost battery_health_pct_read = a;
    assert(call_ensures(S::get_battery_health_pct, (s,), battery_health_pct_read));
    let battery_health_pct = keep_present(a);
    let a = s.get_battery_cycles();
    let ghost battery_cycles_read = a;
    assert(call_ensures(S::get_battery_cycles, (s,), battery_cycles_read));
    let battery_cycles = keep_present(a);
    let a = s.get_cpu_freq_mhz();
    let ghost cpu_freq_mhz_read = a;
    assert(call_ensures(S::get_cpu_freq_mhz, (s,), cpu_freq_mhz_read));
    let cpu_freq_mhz = keep_present(a);
    let a = s.get_gpu_freq_mhz();
    let ghost gpu_freq_mhz_read = a;
    assert(call_ensures(S::get_gpu_freq_mhz, (s,), gpu_freq_mhz_read));
    let gpu_freq_mhz = keep_present(a);
    let a = s.get_gpu_busy_pct();
    let ghost gpu_busy_pct_read = a;
    assert(call_ensures(S::get_gpu_busy_pct, (s,), gpu_busy_pct_read));
    let gpu_busy_pct = keep_present(a);
    let a = s.get_cpu_busy_pct();
    let ghost cpu_busy_pct_read = a;
    assert(call_ensures(S::get_cpu_busy_pct, (s,), cpu_busy_pct_read));
    let cpu_busy_pct = keep_present(a);
    let a = s.get_vram_used_mb();
    let ghost vram_used_mb_read = a;
    assert(call_ensures(S::get_vram_used_mb, (s,), vram_used_mb_read));
    let vram_used_mb = keep_present(a);
    let a = s.get_vram_total_mb();
    let ghost vram_total_mb_read = a;
    assert(call_ensures(S::get_vram_total_mb, (s,), vram_total_mb_read));
    let vram_total_mb = keep_present(a);
    let a = s.get_gpu_throttle_status();
    let ghost gpu_throttle_status_read = a;
    assert(call_ensures(S::get_gpu_throttle_status, (s,), gpu_throttle_status_read));
    let gpu_throttle_status = keep_present(a);
    SystemReadings {
        battery_power,
        battery_percent,
        battery_status,
        battery_health_pct,
        battery_cycles,
        cpu_freq_mhz,
        gpu_freq_mhz,
        gpu_busy_pct,
        cpu_busy_pct,
        vram_used_mb,
        vram_total_mb,
        gpu_throttle_status,
    }
}

/// All the readings; none of a capability that the device does not have.
#[derive(Debug)]
pub struct Readings {
    pub thermal: ThermalReadings,
    pub fans: FanReadings,
    pub system: SystemReadings,
}

impl ThermalReadings {
    /// No readings.
    pub open spec fn nothing() -> ThermalReadings {
        ThermalReadings { cpu_temp: None, gpu_temp: None, soc_power: None }
    }
}

impl FanReadings {
    /// No readings.
    pub open spec fn nothing() -> FanReadings {
        FanReadings { cpu_fan: None, gpu_fan: None }
    }
}

impl SystemReadings {
    /// No readings.
    pub open spec fn nothing() -> SystemReadings {
        SystemReadings {
            battery_power: None,
            battery_percent: None,
            battery_status: None,
            battery_health_pct: None,
            battery_cycles: None,
            cpu_freq_mhz: None,
            gpu_freq_mhz: None,
            gpu_busy_pct: None,
            cpu_busy_pct: None,
            vram_used_mb: None,
            vram_total_mb: None,
            gpu_throttle_status: None,
        }
    }
}

/// Whether the device gave these thermal readings.
pub open spec fn thermal_gave<B: HwBackend + ?Sized>(b: &B, r: ThermalReadings) -> bool {
    exists|cap: Option<&dyn ThermalSensors>| #[trigger]
        call_ensures(B::thermal, (b,), cap) && match cap {
            None => r == ThermalReadings::nothing(),
            Some(t) => sensors_gave(t, r),
        }
}

/// Whether the device gave these fan readings.
pub open spec fn fan_gave<B: HwBackend + ?Sized>(b: &B, r: FanReadings) -> bool {
    exists|cap: Option<&dyn FanControl>| #[trigger]
        call_ensures(B::fan, (b,), cap) && match cap {
            None => r == FanReadings::nothing(),
            Some(f) => fans_gave(f, r),
        }
}

/// Whether the device gave these system readings.
pub open spec fn telemetry_gave<B: HwBackend + ?Sized>(b: &B, r: SystemReadings) -> bool {
    exists|cap: Option<&dyn SystemTelemetry>| #[trigger]
        call_ensures(B::telemetry, (b,), cap) && match cap {
            None => r == SystemReadings::nothing(),
            Some(s) => system_gave(s, r),
        }
}

/// The thermal readings of a device.
pub fn read_thermal<B: HwBackend + ?Sized>(b: &B) -> (r: ThermalReadings)
    ensures
        thermal_gave(b, r),
{
    match b.thermal() {
        Some(t) => read_sensors(t),
        None => ThermalReadings { cpu_temp: None, gpu_temp: None, soc_power: None },
    }
}

/// The fan readings of a device.
pub fn read_fan<B: HwBackend + ?Sized>(b: &B) -> (r: FanReadings)
    ensures
        fan_gave(b, r),
{
    match b.fan() {
        Some(f) => read_fans(f),
        None => FanReadings { cpu_fan: None, gpu_fan: None },
    }
}

/// The system readings of a device.
pub fn read_telemetry<B: HwBackend + ?Sized>(b: &B) -> (r: SystemReadings)
    ensures
        telemetry_gave(b, r),
{
    match b.telemetry() {
        Some(s) => read_system(s),
        None => SystemReadings {
            battery_power: None,
            battery_percent: None,
            battery_status: None,
            battery_health_pct: None,
            battery_cycles: None,
            cpu_freq_mhz: None,
            gpu_freq_mhz: None,
            gpu_busy_pct: None,
            cpu_busy_pct: None,
            vram_used_mb: None,
            vram_total_mb: None,
            gpu_throttle_status: None,
        },
    }
}

/// All the readings of a device.
pub fn read_all<B: HwBackend + ?Sized>(b: &B) -> (r: Readings)
    ensures
        thermal_gave(b, r.thermal),
        fan_gave(b, r.fans),
        telemetry_gave(b, r.system),
{
    Readings { thermal: read_thermal(b), fans: read_fan(b), system: read_telemetry(b) }
}

// ---------------------------------------------------------------------------
// Reporting
// ---------------------------------------------------------------------------

/// A reading as clients get it.
#[derive(Debug)]
pub enum Reading {
    Int(i32),
    Uint(u32),
    Long(u64),
    Text(String),
}

/// The readings by their names, in order.
pub open spec fn keyed(entries: Seq<(&'static str, Reading)>) -> Seq<(Seq<char>, Reading)> {
    entries.map_values(|e: (&'static str, Reading)| (e.0@, e.1))
}

/// With a reading more, where there is one.
pub open spec fn with_reading(
    entries: Seq<(Seq<char>, Reading)>,
    key: Seq<char>,
    reading: Option<Reading>,
) -> Seq<(Seq<char>, Reading)> {
    match reading {
        Some(reading) => entries.push((key, reading)),
        None => entries,
    }
}

fn insert_reading(
    entries: &mut Vec<(&'static str, Reading)>,
    key: &'static str,
    reading: Option<Reading>,
)
    ensures
        keyed(final(entries)@) == with_reading(keyed(old(entries)@), key@, reading),
{
    if let Some(reading) = reading {
        entries.push((key, reading));
        assert(keyed(entries@) =~= keyed(old(entries)@).push((key@, reading)));
    }
}

/// With the thermal readings.
pub open spec fn thermal_entries(entries: Seq<(Seq<char>, Reading)>, r: ThermalReadings) -> Seq<
    (Seq<char>, Reading),
> {
    let entries = with_reading(
        entries,
        "cpu_temp_c"@,
        match r.cpu_temp {
            Some(v) => Some(Reading::Int(v.0)),
            None => None,
        },
    );
    let entries = with_reading(
        entries,
        "gpu_temp_c"@,
        match r.gpu_temp {
            Some(v) => Some(Reading::Int(v.0)),
            None => None,
        },
    );
    let entries = with_reading(
        entries,
        "soc_power_mw"@,
        match r.soc_power {
            Some(v) => Some(Reading::Uint(v.0)),
            None => None,
        },
    );
    entries
}

fn insert_thermal_entries(entries: &mut Vec<(&'static str, Reading)>, r: ThermalReadings)
    ensures
        keyed(final(entries)@) == thermal_entries(keyed(old(entries)@), r),
{
    insert_reading(
        entries,
        "cpu_temp_c",
        match r.cpu_temp {
            Some(v) => Some(Reading::Int(v.0)),
            None => None,
        },
    );
    insert_reading(
        entries,
        "gpu_temp_c",
        match r.gpu_temp {
            Some(v) => Some(Reading::Int(v.0)),
            None => None,
        },
    );
    insert_reading(
        entries,
        "soc_power_mw",
        match r.soc_power {
            Some(v) => Some(Reading::Uint(v.0)),
            None => None,
        },
    );
}

/// With the fan readings.
pub open spec fn fan_entries(entries: Seq<(Seq<char>, Reading)>, r: FanReadings) -> Seq<
    (Seq<char>, Reading),
> {
    let entries = with_reading(
        entries,
        "cpu_fan_rpm"@,
        match r.cpu_fan {
            Some(v) => Some(Reading::Uint(v.0 as u32)),
            None => None,
        },
    );
    let entries = with_reading(
        entries,
        "gpu_fan_rpm"@,
        match r.gpu_fan {
            Some(v) => Some(Reading::Uint(v.0 as u32)),
            None => None,
        },
    );
    entries
}

fn insert_fan_entries(entries: &mut Vec<(&'static str, Reading)>, r: FanReadings)
    ensures
        keyed(final(entries)@) == fan_entries(keyed(old(entries)@), r),
{
    insert_reading(
        entries,
        "cpu_fan_rpm",
        match r.cpu_fan {
            Some(v) => Some(Reading::Uint(v.0 as u32)),
            None => None,
        },
    );
    insert_reading(
        entries,
        "gpu_fan_rpm",
        match r.gpu_fan {
            Some(v) => Some(Reading::Uint(v.0 as u32)),
            None => None,
        },
    );
}

/// With the system readings.
pub open spec fn system_entries(entries: Seq<(Seq<char>, Reading)>, r: SystemReadings) -> Seq<
    (Seq<char>, Reading),
> {
    let entries = with_reading(
        entries,
        "battery_power_mw"@,
        match r.battery_power {
            Some(v) => Some(Reading::Uint(v.0)),
            None => None,
        },
    );
    let entries = with_reading(
        entries,
        "battery_percent"@,
        match r.battery_percent {
            Some(v) => Some(Reading::Uint(v as u32)),
            None => None,
        },
    );
    let entries = with_reading(
        entries,
        "battery_status"@,
        match r.battery_status {
            Some(v) => Some(Reading::Text(v)),
            None => None,
        },
    );
    let entries = with_reading(
        entries,
        "battery_health_pct"@,
        match r.battery_health_pct {
            Some(v) => Some(Reading::Uint(v as u32)),
            None => None,
        },
    );
    let entries = with_reading(
        entries,
        "battery_cycles"@,
        match r.battery_cycles {
            Some(v) => Some(Reading::Uint(v)),
            None => None,
        },
    );
    let entries = with_reading(
        entries,
        "cpu_freq_mhz"@,
        match r.cpu_freq_mhz {
            Some(v) => Some(Reading::Uint(v)),
            None => None,
        },
    );
    let entries = with_reading(
        entries,
        "gpu_freq_mhz"@,
        match r.gpu_freq_mhz {
            Some(v) => Some(Reading::Uint(v)),
            None => None,
        },
    );
    let entries = with_reading(
        entries,
        "gpu_busy_pct"@,
        match r.gpu_busy_pct {
            Some(v) => Some(Reading::Uint(v as u32)),
            None => None,
        },
    );
    let entries = with_reading(
        entries,
        "cpu_busy_pct"@,
        match r.cpu_busy_pct {
            Some(v) => Some(Reading::Uint(v as u32)),
            None => None,
        },
    );
    let entries = with_reading(
        entries,
        "vram_used_mb"@,
        match r.vram_used_mb {
            Some(v) => Some(Reading::Uint(v)),
            None => None,
        },
    );
    let entries = with_reading(
        entries,
        "vram_total_mb"@,
        match r.vram_total_mb {
            Some(v) => Some(Reading::Uint(v)),
            None => None,
        },
    );
    let entries = with_reading(
        entries,
        "gpu_throttle_status"@,
        match r.gpu_throttle_status {
            Some(v) => Some(Reading::Long(v)),
            None => None,
        },
    );
    entries
}

fn insert_system_entries(entries: &mut Vec<(&'static str, Reading)>, r: SystemReadings)
    ensures
        keyed(final(entries)@) == system_entries(keyed(old(entries)@), r),
{
    insert_reading(
        entries,
        "battery_power_mw",
        match r.battery_power {
            Some(v) => Some(Reading::Uint(v.0)),
            None => None,
        },
    );
    insert_reading(
        entries,
        "battery_percent",
        match r.battery_percent {
            Some(v) => Some(Reading::Uint(v as u32)),
            None => None,
        },
    );
    insert_reading(
        entries,
        "battery_status",
        match r.battery_status {
            Some(v) => Some(Reading::Text(v)),
            None => None,
        },
    );
    insert_reading(
        entries,
        "battery_health_pct",
        match r.battery_health_pct {
            Some(v) => Some(Reading::Uint(v as u32)),
            None => None,
        },
    );
    insert_reading(
        entries,
        "battery_cycles",
        match r.battery_cycles {
            Some(v) => Some(Reading::Uint(v)),
            None => None,
        },
    );
    insert_reading(
        entries,
        "cpu_freq_mhz",
        match r.cpu_freq_mhz {
            Some(v) => Some(Reading::Uint(v)),
            None => None,
        },
    );
    insert_reading(
        entries,
        "gpu_freq_mhz",
        match r.gpu_freq_mhz {
            Some(v) => Some(Reading::Uint(v)),
            None => None,
        },
    );
    insert_reading(
        entries,
        "gpu_busy_pct",
        match r.gpu_busy_pct {
            Some(v) => Some(Reading::Uint(v as u32)),
            None => None,
        },
    );
    insert_reading(
        entries,
        "cpu_busy_pct",
        match r.cpu_busy_pct {
            Some(v) => Some(Reading::Uint(v as u32)),
            None => None,
        },
    );
    insert_reading(
        entries,
        "vram_used_mb",
        match r.vram_used_mb {
            Some(v) => Some(Reading::Uint(v)),
            None => None,
        },
    );
    insert_reading(
        entries,
        "vram_total_mb",
        match r.vram_total_mb {
            Some(v) => Some(Reading::Uint(v)),
            None => None,
        },
    );
    insert_reading(
        entries,
        "gpu_throttle_status",
        match r.gpu_throttle_status {
            Some(v) => Some(Reading::Long(v)),
            None => None,
        },
    );
}

/// The readings by their names; a reading that there is none of has no entry.
pub open spec fn entries_of(r: Readings) -> Seq<(Seq<char>, Reading)> {
    system_entries(fan_entries(thermal_entries(Seq::empty(), r.thermal), r.fans), r.system)
}

/// The readings by their names; a reading that there is none of has no entry.
pub fn name_readings(r: Readings) -> (v: Vec<(&'static str, Reading)>)
    ensures
        keyed(v@) == entries_of(r),
{
    let mut entries: Vec<(&'static str, Reading)> = Vec::new();
    assert(keyed(entries@) =~= Seq::empty());
    insert_thermal_entries(&mut entries, r.thermal);
    insert_fan_entries(&mut entries, r.fans);
    insert_system_entries(&mut entries, r.system);
    entries
}

/// All the readings of a device by their names.
pub fn get_telemetry<B: HwBackend + ?Sized>(b: &B) -> (v: Vec<(&'static str, Reading)>)
    ensures
        exists|r: Readings|
            thermal_gave(b, r.thermal) && fan_gave(b, r.fans) && telemetry_gave(b, r.system)
                && keyed(v@) == #[trigger] entries_of(r),
{
    let r = read_all(b);
    let ghost read = r;
    let v = name_readings(r);
    assert(keyed(v@) == entries_of(read));
    v
}

/// A power as a signed number, as far as it fits.
pub open spec fn signed_milliwatts(p: PowerMilliwatts) -> i32 {
    if p.0 <= i32::MAX {
        p.0 as i32
    } else {
        i32::MAX
    }
}

/// CPU and GPU temperature, CPU and GPU fan speed, and the power draw in
/// milliwatts; `TELEMETRY_UNAVAILABLE` for a reading that there is none of.
pub open spec fn status_of(t: ThermalReadings, f: FanReadings) -> (i32, i32, i32, i32, i32) {
    (
        match t.cpu_temp {
            Some(c) => c.0,
            None => TELEMETRY_UNAVAILABLE,
        },
        match t.gpu_temp {
            Some(c) => c.0,
            None => TELEMETRY_UNAVAILABLE,
        },
        match f.cpu_fan {
            Some(rpm) => rpm.0 as i32,
            None => TELEMETRY_UNAVAILABLE,
        },
        match f.gpu_fan {
            Some(rpm) => rpm.0 as i32,
            None => TELEMETRY_UNAVAILABLE,
        },
        match t.soc_power {
            Some(p) => signed_milliwatts(p),
            None => TELEMETRY_UNAVAILABLE,
        },
    )
}

/// The thermal and fan readings as bare numbers.
pub fn summarize(t: &ThermalReadings, f: &FanReadings) -> (r: (i32, i32, i32, i32, i32))
    ensures
        r == status_of(*t, *f),
{
    let cpu_temp: i32 = match t.cpu_temp {
        Some(c) => c.0,
        None => TELEMETRY_UNAVAILABLE,
    };
    let gpu_temp: i32 = match t.gpu_temp {
        Some(c) => c.0,
        None => TELEMETRY_UNAVAILABLE,
    };
    let cpu_rpm: i32 = match f.cpu_fan {
        Some(rpm) => rpm.0 as i32,
        None => TELEMETRY_UNAVAILABLE,
    };
    let gpu_rpm: i32 = match f.gpu_fan {
        Some(rpm) => rpm.0 as i32,
        None => TELEMETRY_UNAVAILABLE,
    };
    let soc_power_mw: i32 = match t.soc_power {
        Some(p) => if p.0 <= i32::MAX as u32 {
            p.0 as i32
        } else {
            i32::MAX
        },
        None => TELEMETRY_UNAVAILABLE,
    };
    (cpu_temp, gpu_temp, cpu_rpm, gpu_rpm, soc_power_mw)
}

/// The thermal and fan readings of a device as bare numbers.
pub fn get_thermal_status<B: HwBackend + ?Sized>(b: &B) -> (r: (i32, i32, i32, i32, i32))
    ensures
        exists|t: ThermalReadings, f: FanReadings|
            thermal_gave(b, t) && fan_gave(b, f) && r == #[trigger] status_of(t, f),
{
    let t = read_thermal(b);
    let f = read_fan(b);
    summarize(&t, &f)
}

// ---------------------------------------------------------------------------
// Laws
// ---------------------------------------------------------------------------

/// The reading that stands under a name.
#[verifier::opaque]
pub open spec fn found(entries: Seq<(Seq<char>, Reading)>, key: Seq<char>) -> Option<Reading>
    decreases entries.len(),
{
    if entries.len() == 0 {
        None
    } else if entries.last().0 == key {
        Some(entries.last().1)
    } else {
        found(entries.drop_last(), key)
    }
}

/// Whether the entries say of each reading of the sensors what its own question was answered,
/// under its own name: the reading where there is one, and no entry otherwise.
pub open spec fn sensors_told<C: ThermalSensors + ?Sized>(c: &C, entries: Seq<(Seq<char>, Reading)>) -> bool {
    &&& exists|a: Result<Option<Celsius>, HpdError>| #[trigger]
        call_ensures(C::get_cpu_temp, (c,), a) && found(entries, "cpu_temp_c"@) == (match a {
            Ok(Some(v)) => Some(Reading::Int(v.0)),
            _ => None,
        })
    &&& exists|a: Result<Option<Celsius>, HpdError>| #[trigger]
        call_ensures(C::get_gpu_temp, (c,), a) && found(entries, "gpu_temp_c"@) == (match a {
            Ok(Some(v)) => Some(Reading::Int(v.0)),
            _ => None,
        })
    &&& exists|a: Result<Option<PowerMilliwatts>, HpdError>| #[trigger]
        call_ensures(C::get_soc_power, (c,), a) && found(entries, "soc_power_mw"@) == (match a {
            Ok(Some(v)) => Some(Reading::Uint(v.0)),
            _ => None,
        })
}

/// Whether the entries say of each reading of the fans what its own question was answered,
/// under its own name: the reading where there is one, and no entry otherwise.
pub open spec fn fans_told<C: FanControl + ?Sized>(c: &C, entries: Seq<(Seq<char>, Reading)>) -> bool {
    &&& exists|a: Result<Rpm, HpdError>| #[trigger]
        call_ensures(C::get_cpu_fan_rpm, (c,), a) && found(entries, "cpu_fan_rpm"@) == (match a {
            Ok(v) => Some(Reading::Uint(v.0 as u32)),
            _ => None,
        })
    &&& exists|a: Result<Option<Rpm>, HpdError>| #[trigger]
        call_ensures(C::get_gpu_fan_rpm, (c,), a) && found(entries, "gpu_fan_rpm"@) == (match a {
            Ok(Some(v)) => Some(Reading::Uint(v.0 as u32)),
            _ => None,
        })
}

/// Whether the entries say of each reading of the system what its own question was answered,
/// under its own name: the reading where there is one, and no entry otherwise.
pub open spec fn system_told<C: SystemTelemetry + ?Sized>(c: &C, entries: Seq<(Seq<char>, Reading)>) -> bool {
    &&& exists|a: Result<Option<PowerMilliwatts>, HpdError>| #[trigger]
        call_ensures(C::get_battery_power, (c,), a) && found(entries, "battery_power_mw"@) == (match a {
            Ok(Some(v)) => Some(Reading::Uint(v.0)),
            _ => None,
        })
    &&& exists|a: Result<Option<u8>, HpdError>| #[trigger]
        call_ensures(C::get_battery_percent, (c,), a) && found(entries, "battery_percent"@) == (match a {
            Ok(Some(v)) => Some(Reading::Uint(v as u32)),
            _ => None,
        })
    &&& exists|a: Result<Option<String>, HpdError>| #[trigger]
        call_ensures(C::get_battery_status, (c,), a) && found(entries, "battery_status"@) == (match a {
            Ok(Some(v)) => Some(Reading::Text(v)),
            _ => None,
        })
    &&& exists|a: Result<Option<u8>, HpdError>| #[trigger]
        call_ensures(C::get_battery_health_pct, (c,), a) && found(entries, "battery_health_pct"@) == (match a {
            Ok(Some(v)) => Some(Reading::Uint(v as u32)),
            _ => None,
        })
    &&& exists|a: Result<Option<u32>, HpdError>| #[trigger]
        call_ensures(C::get_battery_cycles, (c,), a) && found(entries, "battery_cycles"@) == (match a {
            Ok(Some(v)) => Some(Reading::Uint(v)),
            _ => None,
        })
    &&& exists|a: Result<Option<u32>, HpdError>| #[trigger]
        call_ensures(C::get_cpu_freq_mhz, (c,), a) && found(entries, "cpu_freq_mhz"@) == (match a {
            Ok(Some(v)) => Some(Reading::Uint(v)),
            _ => None,
        })
    &&& exists|a: Result<Option<u32>, HpdError>| #[trigger]
        call_ensures(C::get_gpu_freq_mhz, (c,), a) && found(entries, "gpu_freq_mhz"@) == (match a {
            Ok(Some(v)) => Some(Reading::Uint(v)),
            _ => None,
        })
    &&& exists|a: Result<Option<u8>, HpdError>| #[trigger]
        call_ensures(C::get_gpu_busy_pct, (c,), a) && found(entries, "gpu_busy_pct"@) == (match a {
            Ok(Some(v)) => Some(Reading::Uint(v as u32)),
            _ => None,
        })
    &&& exists|a: Result<Option<u8>, HpdError>| #[trigger]
        call_ensures(C::get_cpu_busy_pct, (c,), a) && found(entries, "cpu_busy_pct"@) == (match a {
            Ok(Some(v)) => Some(Reading::Uint(v as u32)),
            _ => None,
        })
    &&& exists|a: Result<Option<u32>, HpdError>| #[trigger]
        call_ensures(C::get_vram_used_mb, (c,), a) && found(entries, "vram_used_mb"@) == (match a {
            Ok(Some(v)) => Some(Reading::Uint(v)),
            _ => None,
        })
    &&& exists|a: Result<Option<u32>, HpdError>| #[trigger]
        call_ensures(C::get_vram_total_mb, (c,), a) && found(entries, "vram_total_mb"@) == (match a {
            Ok(Some(v)) => Some(Reading::Uint(v)),
            _ => None,
        })
    &&& exists|a: Result<Option<u64>, HpdError>| #[trigger]
        call_ensures(C::get_gpu_throttle_status, (c,), a) && found(entries, "gpu_throttle_status"@) == (match a {
            Ok(Some(v)) => Some(Reading::Long(v)),
            _ => None,
        })
}

/// The map of readings is looked up by name: under each name stands what the question
/// of that name was answered, and nothing where there was no answer or the device
/// does not have the capability. No name stands there twice.
pub proof fn telemetry_is_told_by_name<B: HwBackend + ?Sized>(
    b: &B,
    v: Vec<(&'static str, Reading)>,
)
    requires
        call_ensures(get_telemetry::<B>, (b,), v),
    ensures
        ({
            let entries = keyed(v@);
            &&& exists|cap: Option<&dyn ThermalSensors>| #[trigger]
                call_ensures(B::thermal, (b,), cap) && match cap {
                    Some(t) => sensors_told(t, entries),
                    None => found(entries, "cpu_temp_c"@) is None && found(entries, "gpu_temp_c"@) is None && found(entries, "soc_power_mw"@) is None,
                }
            &&& exists|cap: Option<&dyn FanControl>| #[trigger]
                call_ensures(B::fan, (b,), cap) && match cap {
                    Some(f) => fans_told(f, entries),
                    None => found(entries, "cpu_fan_rpm"@) is None && found(entries, "gpu_fan_rpm"@) is None,
                }
            &&& exists|cap: Option<&dyn SystemTelemetry>| #[trigger]
                call_ensures(B::telemetry, (b,), cap) && match cap {
                    Some(s) => system_told(s, entries),
                    None => found(entries, "battery_power_mw"@) is None && found(entries, "battery_percent"@) is None && found(entries, "battery_status"@) is None && found(entries, "battery_health_pct"@) is None && found(entries, "battery_cycles"@) is None && found(entries, "cpu_freq_mhz"@) is None && found(entries, "gpu_freq_mhz"@) is None && found(entries, "gpu_busy_pct"@) is None && found(entries, "cpu_busy_pct"@) is None && found(entries, "vram_used_mb"@) is None && found(entries, "vram_total_mb"@) is None && found(entries, "gpu_throttle_status"@) is None,
                }
            &&& forall|i: int, j: int|
                0 <= i < j < entries.len() ==> (#[trigger] entries[i]).0 != (
                #[trigger] entries[j]).0
        }),
{
    let r = choose|r: Readings|
        thermal_gave(b, r.thermal) && fan_gave(b, r.fans) && telemetry_gave(b, r.system) && keyed(
            v@,
        ) == #[trigger] entries_of(r);
    lemma_told_once(r);
    assert(forall|i: int, j: int|
        0 <= i < j < entries_of(r).len() ==> (#[trigger] entries_of(r)[i]).0 != (
        #[trigger] entries_of(r)[j]).0) by {
        reveal(told_once);
    }
    let entries = entries_of(r);
    let thermal = choose|cap: Option<&dyn ThermalSensors>| #[trigger]
        call_ensures(B::thermal, (b,), cap) && match cap {
            None => r.thermal == ThermalReadings::nothing(),
            Some(t) => sensors_gave(t, r.thermal),
        };
    assert(thermal matches Some(t) ==> sensors_told(t, entries));
    let fan = choose|cap: Option<&dyn FanControl>| #[trigger]
        call_ensures(B::fan, (b,), cap) && match cap {
            None => r.fans == FanReadings::nothing(),
            Some(f) => fans_gave(f, r.fans),
        };
    assert(fan matches Some(f) ==> fans_told(f, entries));
    let system = choose|cap: Option<&dyn SystemTelemetry>| #[trigger]
        call_ensures(B::telemetry, (b,), cap) && match cap {
            None => r.system == SystemReadings::nothing(),
            Some(s) => system_gave(s, r.system),
        };
    assert(system matches Some(s) ==> system_told(s, entries));
}

/// Whether no name stands twice.
#[verifier::opaque]
pub open spec fn told_once(entries: Seq<(Seq<char>, Reading)>) -> bool {
    forall|i: int, j: int|
        0 <= i < j < entries.len() ==> (#[trigger] entries[i]).0 != (#[trigger] entries[j]).0
}

/// A name that stands nowhere is not found.
proof fn lemma_not_found(entries: Seq<(Seq<char>, Reading)>, key: Seq<char>)
    requires
        found(entries, key) is None,
    ensures
        forall|i: int| 0 <= i < entries.len() ==> (#[trigger] entries[i]).0 != key,
    decreases entries.len(),
{
    reveal(found);
    if entries.len() > 0 {
        let front = entries.drop_last();
        lemma_not_found(front, key);
        assert forall|i: int| 0 <= i < entries.len() implies (#[trigger] entries[i]).0 != key by {
            if i < front.len() {
                assert(front[i] == entries[i]);
            }
        }
    }
}

/// One more reading under a new name keeps the names apart.
proof fn lemma_one_more(entries: Seq<(Seq<char>, Reading)>, key: Seq<char>, reading: Option<Reading>)
    requires
        told_once(entries),
        found(entries, key) is None,
    ensures
        told_once(with_reading(entries, key, reading)),
        forall|other: Seq<char>|
            #[trigger] found(with_reading(entries, key, reading), other) == (if key == other
                && reading is Some {
                reading
            } else {
                found(entries, other)
            }),
{
    reveal(found);
    reveal(told_once);
    lemma_not_found(entries, key);
    if let Some(reading) = reading {
        assert(entries.push((key, reading)).drop_last() =~= entries);
    }
}

/// Names, each with its reading where there is one.
pub open spec fn collected(rows: Seq<(Seq<char>, Option<Reading>)>) -> Seq<(Seq<char>, Reading)>
    decreases rows.len(),
{
    if rows.len() == 0 {
        Seq::empty()
    } else {
        with_reading(collected(rows.drop_last()), rows.last().0, rows.last().1)
    }
}

/// Whether no two rows have the same name.
pub open spec fn names_differ(rows: Seq<(Seq<char>, Option<Reading>)>) -> bool {
    forall|i: int, j: int|
        0 <= i < j < rows.len() ==> (#[trigger] rows[i]).0 != (#[trigger] rows[j]).0
}

/// Rows with different names are each found under their name, once.
proof fn lemma_collected(rows: Seq<(Seq<char>, Option<Reading>)>)
    requires
        names_differ(rows),
    ensures
        told_once(collected(rows)),
        forall|i: int|
            0 <= i < rows.len() ==> found(collected(rows), (#[trigger] rows[i]).0) == rows[i].1,
        forall|key: Seq<char>|
            (forall|i: int| 0 <= i < rows.len() ==> (#[trigger] rows[i]).0 != key)
                ==> #[trigger] found(collected(rows), key) is None,
    decreases rows.len(),
{
    if rows.len() == 0 {
        reveal(told_once);
        reveal(found);
    } else {
        let front = rows.drop_last();
        let (key, reading) = rows.last();
        assert(names_differ(front)) by {
            assert forall|i: int, j: int| 0 <= i < j < front.len() implies (
            #[trigger] front[i]).0 != (#[trigger] front[j]).0 by {
                assert(rows[i].0 != rows[j].0);
            }
        }
        lemma_collected(front);
        assert forall|i: int| 0 <= i < front.len() implies (#[trigger] front[i]).0 != key by {
            assert(rows[i].0 != rows[rows.len() - 1].0);
        }
        lemma_one_more(collected(front), key, reading);
        assert forall|i: int| 0 <= i < rows.len() implies found(
            collected(rows),
            (#[trigger] rows[i]).0,
        ) == rows[i].1 by {
            if i < front.len() {
                assert(front[i] == rows[i]);
            }
        }
        assert forall|other: Seq<char>|
            (forall|i: int| 0 <= i < rows.len() ==> (#[trigger] rows[i]).0 != other) implies
            #[trigger] found(collected(rows), other) is None by {
            assert(rows[rows.len() - 1].0 != other);
            assert forall|i: int| 0 <= i < front.len() implies (#[trigger] front[i]).0 != other by {
                assert(rows[i].0 != other);
            }
        }
    }
}

proof fn lemma_row_more(
    rows: Seq<(Seq<char>, Option<Reading>)>,
    key: Seq<char>,
    reading: Option<Reading>,
)
    ensures
        collected(rows.push((key, reading))) == with_reading(collected(rows), key, reading),
{
    assert(rows.push((key, reading)).drop_last() =~= rows);
}

/// The thermal readings by their names.
spec fn thermal_rows(r: ThermalReadings) -> Seq<(Seq<char>, Option<Reading>)> {
    seq![
        (
            "cpu_temp_c"@,
            match r.cpu_temp {
                Some(v) => Some(Reading::Int(v.0)),
                None => None,
            },
        ),
        (
            "gpu_temp_c"@,
            match r.gpu_temp {
                Some(v) => Some(Reading::Int(v.0)),
                None => None,
            },
        ),
        (
            "soc_power_mw"@,
            match r.soc_power {
                Some(v) => Some(Reading::Uint(v.0)),
                None => None,
            },
        ),
    ]
}

proof fn lemma_thermal_rows(before: Seq<(Seq<char>, Option<Reading>)>, r: ThermalReadings)
    ensures
        collected(before + thermal_rows(r)) == thermal_entries(collected(before), r),
{
    let rows = thermal_rows(r);
    let n0 = before;
    let n1 = n0.push(rows[0]);
    lemma_row_more(n0, rows[0].0, rows[0].1);
    let n2 = n1.push(rows[1]);
    lemma_row_more(n1, rows[1].0, rows[1].1);
    let n3 = n2.push(rows[2]);
    lemma_row_more(n2, rows[2].0, rows[2].1);
    assert(before + rows =~= n3);
}

/// The fan readings by their names.
spec fn fan_rows(r: FanReadings) -> Seq<(Seq<char>, Option<Reading>)> {
    seq![
        (
            "cpu_fan_rpm"@,
            match r.cpu_fan {
                Some(v) => Some(Reading::Uint(v.0 as u32)),
                None => None,
            },
        ),
        (
            "gpu_fan_rpm"@,
            match r.gpu_fan {
                Some(v) => Some(Reading::Uint(v.0 as u32)),
                None => None,
            },
        ),
    ]
}

proof fn lemma_fan_rows(before: Seq<(Seq<char>, Option<Reading>)>, r: FanReadings)
    ensures
        collected(before + fan_rows(r)) == fan_entries(collected(before), r),
{
    let rows = fan_rows(r);
    let n0 = before;
    let n1 = n0.push(rows[0]);
    lemma_row_more(n0, rows[0].0, rows[0].1);
    let n2 = n1.push(rows[1]);
    lemma_row_more(n1, rows[1].0, rows[1].1);
    assert(before + rows =~= n2);
}

/// The system readings by their names.
spec fn system_rows(r: SystemReadings) -> Seq<(Seq<char>, Option<Reading>)> {
    seq![
        (
            "battery_power_mw"@,
            match r.battery_power {
                Some(v) => Some(Reading::Uint(v.0)),
                None => None,
            },
        ),
        (
            "battery_percent"@,
            match r.battery_percent {
                Some(v) => Some(Reading::Uint(v as u32)),
                None => None,
            },
        ),
        (
            "battery_status"@,
            match r.battery_status {
                Some(v) => Some(Reading::Text(v)),
                None => None,
            },
        ),
        (
            "battery_health_pct"@,
            match r.battery_health_pct {
                Some(v) => Some(Reading::Uint(v as u32)),
                None => None,
            },
        ),
        (
            "battery_cycles"@,
            match r.battery_cycles {
                Some(v) => Some(Reading::Uint(v)),
                None => None,
            },
        ),
        (
            "cpu_freq_mhz"@,
            match r.cpu_freq_mhz {
                Some(v) => Some(Reading::Uint(v)),
                None => None,
            },
        ),
        (
            "gpu_freq_mhz"@,
            match r.gpu_freq_mhz {
                Some(v) => Some(Reading::Uint(v)),
                None => None,
            },
        ),
        (
            "gpu_busy_pct"@,
            match r.gpu_busy_pct {
                Some(v) => Some(Reading::Uint(v as u32)),
                None => None,
            },
        ),
        (
            "cpu_busy_pct"@,
            match r.cpu_busy_pct {
                Some(v) => Some(Reading::Uint(v as u32)),
                None => None,
            },
        ),
        (
            "vram_used_mb"@,
            match r.vram_used_mb {
                Some(v) => Some(Reading::Uint(v)),
                None => None,
            },
        ),
        (
            "vram_total_mb"@,
            match r.vram_total_mb {
                Some(v) => Some(Reading::Uint(v)),
                None => None,
            },
        ),
        (
            "gpu_throttle_status"@,
            match r.gpu_throttle_status {
                Some(v) => Some(Reading::Long(v)),
                None => None,
            },
        ),
    ]
}

proof fn lemma_system_rows(before: Seq<(Seq<char>, Option<Reading>)>, r: SystemReadings)
    ensures
        collected(before + system_rows(r)) == system_entries(collected(before), r),
{
    let rows = system_rows(r);
    let n0 = before;
    let n1 = n0.push(rows[0]);
    lemma_row_more(n0, rows[0].0, rows[0].1);
    let n2 = n1.push(rows[1]);
    lemma_row_more(n1, rows[1].0, rows[1].1);
    let n3 = n2.push(rows[2]);
    lemma_row_more(n2, rows[2].0, rows[2].1);
    let n4 = n3.push(rows[3]);
    lemma_row_more(n3, rows[3].0, rows[3].1);
    let n5 = n4.push(rows[4]);
    lemma_row_more(n4, rows[4].0, rows[4].1);
    let n6 = n5.push(rows[5]);
    lemma_row_more(n5, rows[5].0, rows[5].1);
    let n7 = n6.push(rows[6]);
    lemma_row_more(n6, rows[6].0, rows[6].1);
    let n8 = n7.push(rows[7]);
    lemma_row_more(n7, rows[7].0, rows[7].1);
    let n9 = n8.push(rows[8]);
    lemma_row_more(n8, rows[8].0, rows[8].1);
    let n10 = n9.push(rows[9]);
    lemma_row_more(n9, rows[9].0, rows[9].1);
    let n11 = n10.push(rows[10]);
    lemma_row_more(n10, rows[10].0, rows[10].1);
    let n12 = n11.push(rows[11]);
    lemma_row_more(n11, rows[11].0, rows[11].1);
    assert(before + rows =~= n12);
}

/// A number by which the names are told apart.
spec fn tag(name: Seq<char>) -> int {
    name.len() * 1_000_000_000 + (name[0] as int) * 1_000_000 + (name[8] as int) * 1000 + (
        name[9] as int)
}

/// The place of a name in the table, by its number.
spec fn place(tag: int) -> int {
    if tag == 10099095099 {
        0
    } else if tag == 10103095099 {
        1
    } else if tag == 12115114095 {
        2
    } else if tag == 11099114112 {
        3
    } else if tag == 11103114112 {
        4
    } else if tag == 16098112111 {
        5
    } else if tag == 15098112101 {
        6
    } else if tag == 14098115116 {
        7
    } else if tag == 18098104101 {
        8
    } else if tag == 14098099121 {
        9
    } else if tag == 12099095109 {
        10
    } else if tag == 12103095109 {
        11
    } else if tag == 12103095112 {
        12
    } else if tag == 12099095112 {
        13
    } else if tag == 12118100095 {
        14
    } else if tag == 13118097108 {
        15
    } else if tag == 19103116116 {
        16
    } else {
        -1
    }
}

/// All the readings by their names.
spec fn all_rows(r: Readings) -> Seq<(Seq<char>, Option<Reading>)> {
    thermal_rows(r.thermal) + fan_rows(r.fans) + system_rows(r.system)
}

proof fn lemma_names_differ(r: Readings)
    ensures
        all_rows(r).len() == 17,
        names_differ(all_rows(r)),
{
    let rows = all_rows(r);
    lemma_names();
    assert forall|i: int| 0 <= i < 17 implies place(tag((#[trigger] rows[i]).0)) == i by {
        if i == 0 {
            assert(rows[0].0 == "cpu_temp_c"@);
        }
        if i == 1 {
            assert(rows[1].0 == "gpu_temp_c"@);
        }
        if i == 2 {
            assert(rows[2].0 == "soc_power_mw"@);
        }
        if i == 3 {
            assert(rows[3].0 == "cpu_fan_rpm"@);
        }
        if i == 4 {
            assert(rows[4].0 == "gpu_fan_rpm"@);
        }
        if i == 5 {
            assert(rows[5].0 == "battery_power_mw"@);
        }
        if i == 6 {
            assert(rows[6].0 == "battery_percent"@);
        }
        if i == 7 {
            assert(rows[7].0 == "battery_status"@);
        }
        if i == 8 {
            assert(rows[8].0 == "battery_health_pct"@);
        }
        if i == 9 {
            assert(rows[9].0 == "battery_cycles"@);
        }
        if i == 10 {
            assert(rows[10].0 == "cpu_freq_mhz"@);
        }
        if i == 11 {
            assert(rows[11].0 == "gpu_freq_mhz"@);
        }
        if i == 12 {
            assert(rows[12].0 == "gpu_busy_pct"@);
        }
        if i == 13 {
            assert(rows[13].0 == "cpu_busy_pct"@);
        }
        if i == 14 {
            assert(rows[14].0 == "vram_used_mb"@);
        }
        if i == 15 {
            assert(rows[15].0 == "vram_total_mb"@);
        }
        if i == 16 {
            assert(rows[16].0 == "gpu_throttle_status"@);
        }
    }
    assert forall|i: int, j: int| 0 <= i < j < rows.len() implies (#[trigger] rows[i]).0 != (
    #[trigger] rows[j]).0 by {
        assert(place(tag(rows[i].0)) == i);
        assert(place(tag(rows[j].0)) == j);
    }
}

/// What stands under each name, by the readings, and that it stands there once.
proof fn lemma_told_once(r: Readings)
    ensures
        told_once(entries_of(r)),
        found(entries_of(r), "cpu_temp_c"@) == (match r.thermal.cpu_temp {
            Some(v) => Some(Reading::Int(v.0)),
            None => None,
        }),
        found(entries_of(r), "gpu_temp_c"@) == (match r.thermal.gpu_temp {
            Some(v) => Some(Reading::Int(v.0)),
            None => None,
        }),
        found(entries_of(r), "soc_power_mw"@) == (match r.thermal.soc_power {
            Some(v) => Some(Reading::Uint(v.0)),
            None => None,
        }),
        found(entries_of(r), "cpu_fan_rpm"@) == (match r.fans.cpu_fan {
            Some(v) => Some(Reading::Uint(v.0 as u32)),
            None => None,
        }),
        found(entries_of(r), "gpu_fan_rpm"@) == (match r.fans.gpu_fan {
            Some(v) => Some(Reading::Uint(v.0 as u32)),
            None => None,
        }),
        found(entries_of(r), "battery_power_mw"@) == (match r.system.battery_power {
            Some(v) => Some(Reading::Uint(v.0)),
            None => None,
        }),
        found(entries_of(r), "battery_percent"@) == (match r.system.battery_percent {
            Some(v) => Some(Reading::Uint(v as u32)),
            None => None,
        }),
        found(entries_of(r), "battery_status"@) == (match r.system.battery_status {
            Some(v) => Some(Reading::Text(v)),
            None => None,
        }),
        found(entries_of(r), "battery_health_pct"@) == (match r.system.battery_health_pct {
            Some(v) => Some(Reading::Uint(v as u32)),
            None => None,
        }),
        found(entries_of(r), "battery_cycles"@) == (match r.system.battery_cycles {
            Some(v) => Some(Reading::Uint(v)),
            None => None,
        }),
        found(entries_of(r), "cpu_freq_mhz"@) == (match r.system.cpu_freq_mhz {
            Some(v) => Some(Reading::Uint(v)),
            None => None,
        }),
        found(entries_of(r), "gpu_freq_mhz"@) == (match r.system.gpu_freq_mhz {
            Some(v) => Some(Reading::Uint(v)),
            None => None,
        }),
        found(entries_of(r), "gpu_busy_pct"@) == (match r.system.gpu_busy_pct {
            Some(v) => Some(Reading::Uint(v as u32)),
            None => None,
        }),
        found(entries_of(r), "cpu_busy_pct"@) == (match r.system.cpu_busy_pct {
            Some(v) => Some(Reading::Uint(v as u32)),
            None => None,
        }),
        found(entries_of(r), "vram_used_mb"@) == (match r.system.vram_used_mb {
            Some(v) => Some(Reading::Uint(v)),
            None => None,
        }),
        found(entries_of(r), "vram_total_mb"@) == (match r.system.vram_total_mb {
            Some(v) => Some(Reading::Uint(v)),
            None => None,
        }),
        found(entries_of(r), "gpu_throttle_status"@) == (match r.system.gpu_throttle_status {
            Some(v) => Some(Reading::Long(v)),
            None => None,
        }),
{
    let rows = all_rows(r);
    let none = Seq::<(Seq<char>, Option<Reading>)>::empty();
    lemma_thermal_rows(none, r.thermal);
    assert(none + thermal_rows(r.thermal) =~= thermal_rows(r.thermal));
    lemma_fan_rows(thermal_rows(r.thermal), r.fans);
    lemma_system_rows(thermal_rows(r.thermal) + fan_rows(r.fans), r.system);
    assert(collected(rows) == entries_of(r));
    lemma_names_differ(r);
    lemma_collected(rows);
    assert(rows[0].0 == "cpu_temp_c"@);
    assert(rows[1].0 == "gpu_temp_c"@);
    assert(rows[2].0 == "soc_power_mw"@);
    assert(rows[3].0 == "cpu_fan_rpm"@);
    assert(rows[4].0 == "gpu_fan_rpm"@);
    assert(rows[5].0 == "battery_power_mw"@);
    assert(rows[6].0 == "battery_percent"@);
    assert(rows[7].0 == "battery_status"@);
    assert(rows[8].0 == "battery_health_pct"@);
    assert(rows[9].0 == "battery_cycles"@);
    assert(rows[10].0 == "cpu_freq_mhz"@);
    assert(rows[11].0 == "gpu_freq_mhz"@);
    assert(rows[12].0 == "gpu_busy_pct"@);
    assert(rows[13].0 == "cpu_busy_pct"@);
    assert(rows[14].0 == "vram_used_mb"@);
    assert(rows[15].0 == "vram_total_mb"@);
    assert(rows[16].0 == "gpu_throttle_status"@);
}

/// The numbers of the names.
proof fn lemma_names()
    ensures
        tag("cpu_temp_c"@) == 10099095099,
        tag("gpu_temp_c"@) == 10103095099,
        tag("soc_power_mw"@) == 12115114095,
        tag("cpu_fan_rpm"@) == 11099114112,
        tag("gpu_fan_rpm"@) == 11103114112,
        tag("battery_power_mw"@) == 16098112111,
        tag("battery_percent"@) == 15098112101,
        tag("battery_status"@) == 14098115116,
        tag("battery_health_pct"@) == 18098104101,
        tag("battery_cycles"@) == 14098099121,
        tag("cpu_freq_mhz"@) == 12099095109,
        tag("gpu_freq_mhz"@) == 12103095109,
        tag("gpu_busy_pct"@) == 12103095112,
        tag("cpu_busy_pct"@) == 12099095112,
        tag("vram_used_mb"@) == 12118100095,
        tag("vram_total_mb"@) == 13118097108,
        tag("gpu_throttle_status"@) == 19103116116,
{
    reveal_strlit("cpu_temp_c");
    reveal_strlit("gpu_temp_c");
    reveal_strlit("soc_power_mw");
    reveal_strlit("cpu_fan_rpm");
    reveal_strlit("gpu_fan_rpm");
    reveal_strlit("battery_power_mw");
    reveal_strlit("battery_percent");
    reveal_strlit("battery_status");
    reveal_strlit("battery_health_pct");
    reveal_strlit("battery_cycles");
    reveal_strlit("cpu_freq_mhz");
    reveal_strlit("gpu_freq_mhz");
    reveal_strlit("gpu_busy_pct");
    reveal_strlit("cpu_busy_pct");
    reveal_strlit("vram_used_mb");
    reveal_strlit("vram_total_mb");
    reveal_strlit("gpu_throttle_status");
}

/// The status of bare numbers holds what each question was answered, in order: CPU and
/// GPU temperature, CPU and GPU fan, and the power draw as far as it fits; the lowest
/// number stands for no answer.
pub proof fn status_is_told_in_order<B: HwBackend + ?Sized>(b: &B, r: (i32, i32, i32, i32, i32))
    requires
        call_ensures(get_thermal_status::<B>, (b,), r),
    ensures
        exists|cap: Option<&dyn ThermalSensors>| #[trigger]
            call_ensures(B::thermal, (b,), cap) && match cap {
                Some(t) => sensors_summed_up(t, r.0, r.1, r.4),
                None => r.0 == i32::MIN && r.1 == i32::MIN && r.4 == i32::MIN,
            },
        exists|cap: Option<&dyn FanControl>| #[trigger]
            call_ensures(B::fan, (b,), cap) && match cap {
                Some(f) => fans_summed_up(f, r.2, r.3),
                None => r.2 == i32::MIN && r.3 == i32::MIN,
            },
{
    let (t, f) = choose|t: ThermalReadings, f: FanReadings|
        thermal_gave(b, t) && fan_gave(b, f) && r == #[trigger] status_of(t, f);
    let thermal = choose|cap: Option<&dyn ThermalSensors>| #[trigger]
        call_ensures(B::thermal, (b,), cap) && match cap {
            None => t == ThermalReadings::nothing(),
            Some(c) => sensors_gave(c, t),
        };
    assert(thermal matches Some(c) ==> sensors_summed_up(c, r.0, r.1, r.4));
    let fan = choose|cap: Option<&dyn FanControl>| #[trigger]
        call_ensures(B::fan, (b,), cap) && match cap {
            None => f == FanReadings::nothing(),
            Some(c) => fans_gave(c, f),
        };
    assert(fan matches Some(c) ==> fans_summed_up(c, r.2, r.3));
}

/// Whether these numbers are what the sensors answered.
pub open spec fn sensors_summed_up<C: ThermalSensors + ?Sized>(
    c: &C,
    cpu: i32,
    gpu: i32,
    power: i32,
) -> bool {
    &&& exists|a: Result<Option<Celsius>, HpdError>| #[trigger]
        call_ensures(C::get_cpu_temp, (c,), a) && cpu == (match a {
            Ok(Some(v)) => v.0,
            _ => i32::MIN,
        })
    &&& exists|a: Result<Option<Celsius>, HpdError>| #[trigger]
        call_ensures(C::get_gpu_temp, (c,), a) && gpu == (match a {
            Ok(Some(v)) => v.0,
            _ => i32::MIN,
        })
    &&& exists|a: Result<Option<PowerMilliwatts>, HpdError>| #[trigger]
        call_ensures(C::get_soc_power, (c,), a) && match a {
            Ok(Some(v)) => power == v.0 || (v.0 > i32::MAX && power == i32::MAX),
            _ => power == i32::MIN,
        }
}

/// Whether these numbers are what the fans answered.
pub open spec fn fans_summed_up<C: FanControl + ?Sized>(c: &C, cpu: i32, gpu: i32) -> bool {
    &&& exists|a: Result<Rpm, HpdError>| #[trigger]
        call_ensures(C::get_cpu_fan_rpm, (c,), a) && match a {
            Ok(v) => cpu == v.0,
            Err(_) => cpu == i32::MIN,
        }
    &&& exists|a: Result<Option<Rpm>, HpdError>| #[trigger]
        call_ensures(C::get_gpu_fan_rpm, (c,), a) && match a {
            Ok(Some(v)) => gpu == v.0,
            _ => gpu == i32::MIN,
        }
}

} // verus!
