//! A hardware backend: the capabilities that a device offers.

use crate::charge::ChargeControl;
use crate::fan::FanControl;
use crate::fan_curve::FanCurveControl;
use crate::gpu_clock::GpuClockRangeControl;
use crate::platform_profile::PlatformProfile;
use crate::power::PowerEnvelope;
use crate::telemetry::SystemTelemetry;
use crate::thermal::ThermalSensors;
use std::sync::Arc;
use vstd::prelude::*;

verus! {

/// The power envelope of a backend.
pub struct PowerHandle<'a>(pub &'a dyn PowerEnvelope);

/// A hardware backend. Power is what every device has; the other capabilities
/// are absent unless a backend offers them.
pub trait HwBackend: Send + Sync {
    fn power(&self) -> PowerHandle<'_>;

    fn charge(&self) -> (r: Option<&dyn ChargeControl>)
        default_ensures
            r is None,
    {
        None
    }

    fn profile(&self) -> (r: Option<&dyn PlatformProfile>)
        default_ensures
            r is None,
    {
        None
    }

    fn fan(&self) -> (r: Option<&dyn FanControl>)
        default_ensures
            r is None,
    {
        None
    }

    fn fan_curve(&self) -> (r: Option<&dyn FanCurveControl>)
        default_ensures
            r is None,
    {
        None
    }

    fn thermal(&self) -> (r: Option<&dyn ThermalSensors>)
        default_ensures
            r is None,
    {
        None
    }

    fn telemetry(&self) -> (r: Option<&dyn SystemTelemetry>)
        default_ensures
            r is None,
    {
        None
    }

    fn gpu_clock(&self) -> (r: Option<&dyn GpuClockRangeControl>)
        default_ensures
            r is None,
    {
        None
    }
}

/// A shared backend offers what the backend offers.
impl<T: HwBackend + ?Sized> HwBackend for Arc<T> {
    fn power(&self) -> (r: PowerHandle<'_>)
        ensures
            call_ensures(T::power, (&**self,), r),
    {
        (**self).power()
    }

    fn charge(&self) -> (r: Option<&dyn ChargeControl>)
        ensures
            call_ensures(T::charge, (&**self,), r),
    {
        (**self).charge()
    }

    fn profile(&self) -> (r: Option<&dyn PlatformProfile>)
        ensures
            call_ensures(T::profile, (&**self,), r),
    {
        (**self).profile()
    }

    fn fan(&self) -> (r: Option<&dyn FanControl>)
        ensures
            call_ensures(T::fan, (&**self,), r),
    {
        (**self).fan()
    }

    fn fan_curve(&self) -> (r: Option<&dyn FanCurveControl>)
        ensures
            call_ensures(T::fan_curve, (&**self,), r),
    {
        (**self).fan_curve()
    }

    fn thermal(&self) -> (r: Option<&dyn ThermalSensors>)
        ensures
            call_ensures(T::thermal, (&**self,), r),
    {
        (**self).thermal()
    }

    fn telemetry(&self) -> (r: Option<&dyn SystemTelemetry>)
        ensures
            call_ensures(T::telemetry, (&**self,), r),
    {
        (**self).telemetry()
    }

    fn gpu_clock(&self) -> (r: Option<&dyn GpuClockRangeControl>)
        ensures
            call_ensures(T::gpu_clock, (&**self,), r),
    {
        (**self).gpu_clock()
    }
}

} // verus!
