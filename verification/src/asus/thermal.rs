//! Temperatures and power draw on ASUS handhelds.

use crate::asus::hwmon;
use crate::asus::hwmon::HwmonCache;
use crate::error::HpdError;
use crate::sysfs;
use crate::sysfs::SysfsIo;
use crate::text;
use crate::thermal::ThermalSensors;
use crate::units;
use crate::units::{Celsius, PowerMilliwatts};
use vstd::prelude::*;

verus! {

pub const CPU_HWMON_NAME: &'static str = "k10temp";

pub const GPU_HWMON_NAME: &'static str = "amdgpu";

/// Whether `r` is the temperature that `raw` thousandths of a degree stand for.
pub open spec fn temperature_from(raw: Seq<char>, r: Result<Celsius, HpdError>) -> bool {
    match text::signed_value(text::trimmed(raw)) {
        Some(milli) if i32::MIN <= milli <= i32::MAX => r is Ok && r->Ok_0.0
            == units::whole_degrees(milli),
        _ => r is Err && sysfs::is_parse_failure(
            r->Err_0,
            "temp_input"@,
            raw,
            "expected integer millidegrees"@,
        ),
    }
}

/// The temperature that `raw` thousandths of a degree stand for.
pub fn parse_temperature(raw: &str) -> (r: Result<Celsius, HpdError>)
    ensures
        temperature_from(raw@, r),
{
    match text::parse_i32(text::trim(raw)) {
        Some(milli) => Ok(Celsius::from_millidegrees(milli)),
        None => Err(sysfs::parse_error("temp_input", raw, "expected integer millidegrees")),
    }
}

/// Whether `r` is the power that `raw` microwatts stand for.
pub open spec fn microwatts_from(
    raw: Seq<char>,
    field: Seq<char>,
    r: Result<PowerMilliwatts, HpdError>,
) -> bool {
    match text::bounded_value(text::trimmed(raw), u64::MAX as nat) {
        Some(micro) => r is Ok && r->Ok_0.0 == sysfs::clamp_u32(micro / 1000),
        None => r is Err && sysfs::is_parse_failure(
            r->Err_0,
            field,
            raw,
            "expected integer microwatts"@,
        ),
    }
}

/// The power that `raw` microwatts stand for.
pub fn parse_microwatts(raw: &str, field: &'static str) -> (r: Result<PowerMilliwatts, HpdError>)
    ensures
        microwatts_from(raw@, field@, r),
{
    match sysfs::parse_number(raw, u64::MAX, field, "expected integer microwatts") {
        Ok(micro) => Ok(PowerMilliwatts(sysfs::saturate_u32(micro / 1000))),
        Err(e) => Err(e),
    }
}

/// Whether the temperature of the node with the name was read as `r`.
pub open spec fn temperature_gave<S: SysfsIo>(
    s: &S,
    name: Seq<char>,
    r: Result<Option<Celsius>, HpdError>,
) -> bool {
    exists|attr: Result<Option<String>, HpdError>| #[trigger]
        hwmon::node_attribute_gave(s, name, "/"@ + "temp1_input"@, attr) && match attr {
            Err(e) => r == Err::<Option<Celsius>, HpdError>(e),
            Ok(None) => r == Ok::<Option<Celsius>, HpdError>(None),
            Ok(Some(raw)) => match r {
                Ok(Some(t)) => temperature_from(raw@, Ok(t)),
                Ok(None) => false,
                Err(e) => temperature_from(raw@, Err(e)),
            },
        }
}

/// Whether the power draw of the SoC was read as `r`.
pub open spec fn soc_power_gave<S: SysfsIo>(
    s: &S,
    r: Result<Option<PowerMilliwatts>, HpdError>,
) -> bool {
    exists|attr: Result<Option<String>, HpdError>| #[trigger]
        hwmon::node_attribute_gave(s, GPU_HWMON_NAME@, "/"@ + "power1_input"@, attr) && match attr {
            Err(e) => r == Err::<Option<PowerMilliwatts>, HpdError>(e),
            Ok(None) => r == Ok::<Option<PowerMilliwatts>, HpdError>(None),
            Ok(Some(raw)) => match r {
                Ok(Some(p)) => microwatts_from(raw@, "power1_input"@, Ok(p)),
                Ok(None) => false,
                Err(e) => microwatts_from(raw@, "power1_input"@, Err(e)),
            },
        }
}

/// The thermal sensors of an ASUS handheld.
pub struct AsusThermalBackend<S: SysfsIo> {
    pub sysfs: S,
    pub hwmon_cache: HwmonCache,
}

impl<S: SysfsIo> AsusThermalBackend<S> {
    pub fn new(sysfs: S) -> (r: Self)
        ensures
            r.sysfs == sysfs,
    {
        AsusThermalBackend { sysfs, hwmon_cache: HwmonCache::new() }
    }

    fn read_temp(&self, name: &str) -> (r: Result<Option<Celsius>, HpdError>)
        ensures
            temperature_gave(&self.sysfs, name@, r),
    {
        let attr = self.hwmon_cache.read_attr(&self.sysfs, name, "temp1_input");
        let ghost read = attr;
        assert(hwmon::node_attribute_gave(&self.sysfs, name@, "/"@ + "temp1_input"@, read));
        match attr {
            Err(e) => Err(e),
            Ok(None) => Ok(None),
            Ok(Some(raw)) => match parse_temperature(raw.as_str()) {
                Ok(t) => Ok(Some(t)),
                Err(e) => Err(e),
            },
        }
    }
}

impl<S: SysfsIo> ThermalSensors for AsusThermalBackend<S> {
    fn get_cpu_temp(&self) -> (r: Result<Option<Celsius>, HpdError>)
        ensures
            temperature_gave(&self.sysfs, CPU_HWMON_NAME@, r),
    {
        self.read_temp(CPU_HWMON_NAME)
    }

    fn get_gpu_temp(&self) -> (r: Result<Option<Celsius>, HpdError>)
        ensures
            temperature_gave(&self.sysfs, GPU_HWMON_NAME@, r),
    {
        self.read_temp(GPU_HWMON_NAME)
    }

    fn get_soc_power(&self) -> (r: Result<Option<PowerMilliwatts>, HpdError>)
        ensures
            soc_power_gave(&self.sysfs, r),
    {
        let attr = self.hwmon_cache.read_attr(&self.sysfs, GPU_HWMON_NAME, "power1_input");
        let ghost read = attr;
        assert(hwmon::node_attribute_gave(
            &self.sysfs,
            GPU_HWMON_NAME@,
            "/"@ + "power1_input"@,
            read,
        ));
        match attr {
            Err(e) => Err(e),
            Ok(None) => Ok(None),
            Ok(Some(raw)) => match parse_microwatts(raw.as_str(), "power1_input") {
                Ok(p) => Ok(Some(p)),
                Err(e) => Err(e),
            },
        }
    }
}

/// A temperature is read as the kernel writes it: thousandths of a degree, with their sign.
/// What comes of it is less than a degree away.
pub proof fn temperatures_are_thousandths(milli: int, raw: &str, r: Result<Celsius, HpdError>)
    requires
        call_ensures(parse_temperature, (raw,), r),
        text::trimmed(raw@) == text::signed_dec(milli),
        i32::MIN <= milli <= i32::MAX,
    ensures
        r matches Ok(t) && t.0 * 1000 - 1000 < milli < t.0 * 1000 + 1000 && (milli >= 0 ==> t.0
            >= 0) && (milli <= 0 ==> t.0 <= 0),
{
    text::signed_decimals_are_read_back(milli);
}

/// A power is read as the kernel writes it, in microwatts: a milliwatt is a thousand of
/// them.
pub proof fn powers_are_millionths(
    micro: nat,
    raw: &str,
    field: &'static str,
    r: Result<PowerMilliwatts, HpdError>,
)
    requires
        call_ensures(parse_microwatts, (raw, field), r),
        text::trimmed(raw@) == text::dec(micro),
        micro / 1000 <= u32::MAX,
    ensures
        r matches Ok(p) && p.0 * 1000 <= micro < p.0 * 1000 + 1000,
{
    text::decimals_are_read_back(micro);
}

/// Whether the attribute of the node with the name told this temperature, in thousandths of
/// a degree.
pub open spec fn sensor_said<S: SysfsIo>(s: &S, name: Seq<char>, attr: Seq<char>, t: Celsius) -> bool {
    exists|raw: String| #[trigger]
        hwmon::node_attribute_gave(s, name, "/"@ + attr, Ok(Some(raw))) && (text::signed_value(
            text::trimmed(raw@),
        ) matches Some(milli) && t.0 * 1000 - 1000 < milli < t.0 * 1000 + 1000)
}

/// The CPU and the GPU are read from the nodes of their own drivers, and the power draw
/// from the GPU's; each from its own attribute and in its own unit.
pub proof fn sensors_are_those_of_their_drivers<S: SysfsIo>(
    backend: AsusThermalBackend<S>,
    cpu: Result<Option<Celsius>, HpdError>,
    gpu: Result<Option<Celsius>, HpdError>,
    power: Result<Option<PowerMilliwatts>, HpdError>,
)
    requires
        call_ensures(
            <AsusThermalBackend<S> as ThermalSensors>::get_cpu_temp,
            (&backend,),
            cpu,
        ),
        call_ensures(
            <AsusThermalBackend<S> as ThermalSensors>::get_gpu_temp,
            (&backend,),
            gpu,
        ),
        call_ensures(
            <AsusThermalBackend<S> as ThermalSensors>::get_soc_power,
            (&backend,),
            power,
        ),
    ensures
        cpu matches Ok(Some(t)) ==> sensor_said(&backend.sysfs, "k10temp"@, "temp1_input"@, t),
        gpu matches Ok(Some(t)) ==> sensor_said(&backend.sysfs, "amdgpu"@, "temp1_input"@, t),
        power matches Ok(Some(p)) ==> exists|raw: String| #[trigger]
            hwmon::node_attribute_gave(
                &backend.sysfs,
                "amdgpu"@,
                "/"@ + "power1_input"@,
                Ok(Some(raw)),
            ) && (text::unsigned_value(text::trimmed(raw@)) matches Some(micro) && p.0 * 1000
                <= micro && (p.0 < u32::MAX ==> micro < p.0 * 1000 + 1000)),
{
    if let Ok(Some(t)) = cpu {
        lemma_sensor_said(&backend.sysfs, "k10temp"@, t);
    }
    if let Ok(Some(t)) = gpu {
        lemma_sensor_said(&backend.sysfs, "amdgpu"@, t);
    }
    if let Ok(Some(p)) = power {
        let attr = choose|attr: Result<Option<String>, HpdError>| #[trigger]
            hwmon::node_attribute_gave(
                &backend.sysfs,
                "amdgpu"@,
                "/"@ + "power1_input"@,
                attr,
            ) && match attr {
                Err(e) => false,
                Ok(None) => false,
                Ok(Some(raw)) => microwatts_from(raw@, "power1_input"@, Ok(p)),
            };
        let raw = attr->Ok_0->0;
        assert(attr == Ok::<Option<String>, HpdError>(Some(raw)));
    }
}

proof fn lemma_sensor_said<S: SysfsIo>(s: &S, name: Seq<char>, t: Celsius)
    requires
        temperature_gave(s, name, Ok(Some(t))),
    ensures
        sensor_said(s, name, "temp1_input"@, t),
{
    let attr = choose|attr: Result<Option<String>, HpdError>| #[trigger]
        hwmon::node_attribute_gave(s, name, "/"@ + "temp1_input"@, attr) && match attr {
            Err(e) => false,
            Ok(None) => false,
            Ok(Some(raw)) => temperature_from(raw@, Ok(t)),
        };
    let raw = attr->Ok_0->0;
    assert(attr == Ok::<Option<String>, HpdError>(Some(raw)));
}

} // verus!
