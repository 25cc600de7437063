//! The ASUS ROG Ally backend.

use crate::backend::{HwBackend, PowerHandle};
use crate::charge::ChargeControl;
use crate::fan::FanControl;
use crate::fan_curve::FanCurveControl;
use crate::gpu_clock::GpuClockRangeControl;
use crate::platform_profile::PlatformProfile;
use crate::sysfs::SysfsIo;
use crate::telemetry::SystemTelemetry;
use crate::thermal::ThermalSensors;
use vstd::prelude::*;

pub mod charge;
pub mod detect;
pub mod fan;
pub mod fan_curve;
pub mod gpu_clock;
pub mod hwmon;
pub mod power;
pub mod power_supply;
pub mod profile;
pub mod telemetry;
pub mod thermal;

verus! {

/// Every capability of an ASUS handheld.
pub struct AsusBackend<S: SysfsIo + Clone> {
    pub power: power::AsusPowerBackend<S>,
    pub charge: charge::AsusChargeBackend<S>,
    pub fan: fan::AsusFanBackend<S>,
    pub fan_curve: fan_curve::AsusFanCurveBackend<S>,
    pub profile: profile::AsusProfileBackend<S>,
    pub thermal: thermal::AsusThermalBackend<S>,
    pub telemetry: telemetry::AsusTelemetryBackend<S>,
    pub gpu_clock: gpu_clock::AsusGpuClockBackend<S>,
}

impl<S: SysfsIo + Clone> AsusBackend<S> {
    /// The backend on top of this access to the kernel's files; each capability
    /// gets a clone of it.
    pub fn new(sysfs: S) -> (r: Self)
        ensures
            cloned(sysfs, r.power.sysfs),
            cloned(sysfs, r.charge.sysfs),
            cloned(sysfs, r.fan.sysfs),
            cloned(sysfs, r.fan_curve.sysfs),
            cloned(sysfs, r.profile.sysfs),
            cloned(sysfs, r.thermal.sysfs),
            cloned(sysfs, r.telemetry.sysfs),
            r.gpu_clock.sysfs == sysfs,
    {
        AsusBackend {
            power: power::AsusPowerBackend::new(sysfs.clone()),
            charge: charge::AsusChargeBackend::new(sysfs.clone()),
            fan: fan::AsusFanBackend::new(sysfs.clone()),
            fan_curve: fan_curve::AsusFanCurveBackend::new(sysfs.clone()),
            profile: profile::AsusProfileBackend::new(sysfs.clone()),
            thermal: thermal::AsusThermalBackend::new(sysfs.clone()),
            telemetry: telemetry::AsusTelemetryBackend::new(sysfs.clone()),
            gpu_clock: gpu_clock::AsusGpuClockBackend::new(sysfs),
        }
    }
}

impl<S: SysfsIo + Clone + 'static> HwBackend for AsusBackend<S> {
    fn power(&self) -> (r: PowerHandle<'_>)
        ensures
            r == PowerHandle(&self.power),
    {
        PowerHandle(&self.power)
    }

    fn charge(&self) -> (r: Option<&dyn ChargeControl>)
        ensures
            r == Some::<&dyn ChargeControl>(&self.charge),
    {
        Some(&self.charge)
    }

    fn profile(&self) -> (r: Option<&dyn PlatformProfile>)
        ensures
            r == Some::<&dyn PlatformProfile>(&self.profile),
    {
        Some(&self.profile)
    }

    fn fan(&self) -> (r: Option<&dyn FanControl>)
        ensures
            r == Some::<&dyn FanControl>(&self.fan),
    {
        Some(&self.fan)
    }

    fn fan_curve(&self) -> (r: Option<&dyn FanCurveControl>)
        ensures
            r == Some::<&dyn FanCurveControl>(&self.fan_curve),
    {
        Some(&self.fan_curve)
    }

    fn thermal(&self) -> (r: Option<&dyn ThermalSensors>)
        ensures
            r == Some::<&dyn ThermalSensors>(&self.thermal),
    {
        Some(&self.thermal)
    }

    fn telemetry(&self) -> (r: Option<&dyn SystemTelemetry>)
        ensures
            r == Some::<&dyn SystemTelemetry>(&self.telemetry),
    {
        Some(&self.telemetry)
    }

    fn gpu_clock(&self) -> (r: Option<&dyn GpuClockRangeControl>)
        ensures
            r == Some::<&dyn GpuClockRangeControl>(&self.gpu_clock),
    {
        Some(&self.gpu_clock)
    }
}

} // verus!
