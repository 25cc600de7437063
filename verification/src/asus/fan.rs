//! Fan speeds on ASUS handhelds.

use crate::asus::hwmon;
use crate::error::{HpdError, SysfsError};
use crate::fan::FanControl;
use crate::sysfs;
use crate::sysfs::SysfsIo;
use crate::text;
use crate::units::Rpm;
use vstd::prelude::*;

verus! {

pub const ASUS_FAN_HWMON_NAME: &'static str = "asus";

/// The number of the CPU fan.
pub const FAN_CPU: u8 = 1;

/// The number of the GPU fan.
pub const FAN_GPU: u8 = 2;

/// The file of a fan's speed.
pub open spec fn speed_path(base: Seq<char>, fan: u8) -> Seq<char> {
    base + "/fan"@ + text::dec(fan as nat) + "_input"@
}

/// Whether `r` is the speed that the contents of a fan's file stand for.
pub open spec fn speed_from(
    raw: Result<String, SysfsError>,
    fan: u8,
    r: Result<Rpm, HpdError>,
) -> bool {
    match raw {
        Err(e) => r == Err::<Rpm, HpdError>(HpdError::Sysfs(e)),
        Ok(t) => match text::bounded_value(t@, u16::MAX as nat) {
            Some(v) => r is Ok && r->Ok_0.0 == v,
            None => r is Err && sysfs::is_parse_failure(
                r->Err_0,
                "fan_rpm"@,
                t@,
                "fan"@ + text::dec(fan as nat) + " RPM is not a valid u16"@,
            ),
        },
    }
}

/// The speed that the contents of a fan's file stand for.
pub fn parse_speed(raw: Result<String, SysfsError>, fan: u8) -> (r: Result<Rpm, HpdError>)
    ensures
        speed_from(raw, fan, r),
{
    match raw {
        Err(e) => Err(HpdError::Sysfs(e)),
        Ok(t) => match text::parse_unsigned(t.as_str(), u16::MAX as u64) {
            Some(v) => Ok(Rpm(v as u16)),
            None => {
                let mut reason = "fan".to_owned();
                text::push_dec(&mut reason, fan as u64);
                reason.append(" RPM is not a valid u16");
                Err(sysfs::parse_error("fan_rpm", t.as_str(), reason.as_str()))
            },
        },
    }
}

/// Whether the speed of a fan was read as `r`. A device without the node, or
/// without that fan, does not support the reading.
pub open spec fn speed_gave<S: SysfsIo>(s: &S, fan: u8, r: Result<Rpm, HpdError>) -> bool {
    exists|node: Option<String>| #[trigger]
        hwmon::first_hwmon_gave(s, ASUS_FAN_HWMON_NAME@, node) && match node {
            None => r == Err::<Rpm, HpdError>(HpdError::FeatureUnsupported),
            Some(base) => {
                let path = speed_path(base@, fan);
                ||| sysfs::presence_gave(s, path, false) && r == Err::<Rpm, HpdError>(
                    HpdError::FeatureUnsupported,
                )
                ||| sysfs::presence_gave(s, path, true) && exists|
                    raw: Result<String, SysfsError>,
                | #[trigger]
                    sysfs::read_gave(s, path, raw) && speed_from(raw, fan, r)
            },
        }
}

/// The fans of an ASUS handheld.
pub struct AsusFanBackend<S: SysfsIo> {
    pub sysfs: S,
}

impl<S: SysfsIo> AsusFanBackend<S> {
    pub fn new(sysfs: S) -> (r: Self)
        ensures
            r.sysfs == sysfs,
    {
        AsusFanBackend { sysfs }
    }

    fn read_rpm(&self, fan: u8) -> (r: Result<Rpm, HpdError>)
        ensures
            speed_gave(&self.sysfs, fan, r),
    {
        let node = hwmon::find_hwmon_by_name(&self.sysfs, ASUS_FAN_HWMON_NAME);
        assert(hwmon::first_hwmon_gave(&self.sysfs, ASUS_FAN_HWMON_NAME@, node));
        match node {
            None => Err(HpdError::FeatureUnsupported),
            Some(base) => {
                let mut path = base.clone();
                path.append("/fan");
                text::push_dec(&mut path, fan as u64);
                path.append("_input");
                if !sysfs::present(&self.sysfs, path.as_str()) {
                    return Err(HpdError::FeatureUnsupported);
                }
                let raw = sysfs::read(&self.sysfs, path.as_str());
                assert(sysfs::read_gave(&self.sysfs, speed_path(base@, fan), raw));
                parse_speed(raw, fan)
            },
        }
    }
}

/// A speed of a fan that a device need not have.
pub open spec fn optional_speed(speed: Result<Rpm, HpdError>) -> Result<Option<Rpm>, HpdError> {
    match speed {
        Ok(rpm) => Ok(Some(rpm)),
        Err(HpdError::FeatureUnsupported) => Ok(None),
        Err(e) => Err(e),
    }
}

impl<S: SysfsIo> FanControl for AsusFanBackend<S> {
    fn get_cpu_fan_rpm(&self) -> (r: Result<Rpm, HpdError>)
        ensures
            speed_gave(&self.sysfs, FAN_CPU, r),
    {
        self.read_rpm(FAN_CPU)
    }

    fn get_gpu_fan_rpm(&self) -> (r: Result<Option<Rpm>, HpdError>)
        ensures
            exists|speed: Result<Rpm, HpdError>| #[trigger]
                speed_gave(&self.sysfs, FAN_GPU, speed) && r == optional_speed(speed),
    {
        let speed = self.read_rpm(FAN_GPU);
        assert(speed_gave(&self.sysfs, FAN_GPU, speed));
        match speed {
            Ok(rpm) => Ok(Some(rpm)),
            Err(HpdError::FeatureUnsupported) => Ok(None),
            Err(e) => Err(e),
        }
    }
}

/// The CPU fan is the first one and the GPU fan the second; a speed is told as it is read.
pub proof fn fans_are_read_from_their_files<S: SysfsIo>(
    backend: AsusFanBackend<S>,
    cpu: Result<Rpm, HpdError>,
    gpu: Result<Option<Rpm>, HpdError>,
)
    requires
        call_ensures(<AsusFanBackend<S> as FanControl>::get_cpu_fan_rpm, (&backend,), cpu),
        call_ensures(<AsusFanBackend<S> as FanControl>::get_gpu_fan_rpm, (&backend,), gpu),
    ensures
        cpu matches Ok(rpm) ==> fan_said(&backend.sysfs, "1"@, rpm),
        gpu matches Ok(Some(rpm)) ==> fan_said(&backend.sysfs, "2"@, rpm),
        gpu != Err::<Option<Rpm>, HpdError>(HpdError::FeatureUnsupported),
{
    reveal_strlit("1");
    reveal_strlit("2");
    assert(text::dec(1) =~= "1"@);
    assert(text::dec(2) =~= "2"@);
    if let Ok(rpm) = cpu {
        lemma_fan_said(&backend.sysfs, 1, rpm);
    }
    if let Ok(Some(rpm)) = gpu {
        lemma_fan_said(&backend.sysfs, 2, rpm);
    }
}

/// Whether the file of a fan, under the node of the firmware's fans, told this speed.
pub open spec fn fan_said<S: SysfsIo>(s: &S, number: Seq<char>, rpm: Rpm) -> bool {
    exists|base: String, t: String| #[trigger]
        hwmon::first_hwmon_gave(s, "asus"@, Some(base)) && #[trigger] sysfs::read_gave(
            s,
            base@ + "/fan"@ + number + "_input"@,
            Ok(t),
        ) && text::unsigned_value(t@) == Some(rpm.0 as nat)
}

proof fn lemma_fan_said<S: SysfsIo>(s: &S, fan: u8, rpm: Rpm)
    requires
        speed_gave(s, fan, Ok(rpm)),
    ensures
        fan_said(s, text::dec(fan as nat), rpm),
{
    let node = choose|node: Option<String>| #[trigger]
        hwmon::first_hwmon_gave(s, ASUS_FAN_HWMON_NAME@, node) && match node {
            None => false,
            Some(base) => exists|raw: Result<String, SysfsError>| #[trigger]
                sysfs::read_gave(s, speed_path(base@, fan), raw) && speed_from(raw, fan, Ok(rpm)),
        };
    let base = node->0;
    let raw = choose|raw: Result<String, SysfsError>| #[trigger]
        sysfs::read_gave(s, speed_path(base@, fan), raw) && speed_from(raw, fan, Ok(rpm));
    let t = raw->Ok_0;
    assert(raw == Ok::<String, SysfsError>(t));
    assert(node == Some(base));
    assert(base@ + "/fan"@ + text::dec(fan as nat) + "_input"@ == speed_path(base@, fan));
}

} // verus!
