//! Extended readings: battery, clocks, load and memory.

use crate::error::HpdError;
use crate::units::PowerMilliwatts;
use vstd::prelude::*;

verus! {

/// Extended readings. Each is nothing unless the backend has it.
pub trait SystemTelemetry: Send + Sync {
    /// The power drawn from the battery, while it discharges.
    fn get_battery_power(&self) -> (r: Result<Option<PowerMilliwatts>, HpdError>)
        default_ensures
            r == Ok::<Option<PowerMilliwatts>, HpdError>(None),
    {
        Ok(None)
    }

    /// How full the battery is, in percent.
    fn get_battery_percent(&self) -> (r: Result<Option<u8>, HpdError>)
        default_ensures
            r == Ok::<Option<u8>, HpdError>(None),
    {
        Ok(None)
    }

    /// The kernel's word for what the battery is doing.
    fn get_battery_status(&self) -> (r: Result<Option<String>, HpdError>)
        default_ensures
            r == Ok::<Option<String>, HpdError>(None),
    {
        Ok(None)
    }

    /// What is left of the design capacity, in percent.
    fn get_battery_health_pct(&self) -> (r: Result<Option<u8>, HpdError>)
        default_ensures
            r == Ok::<Option<u8>, HpdError>(None),
    {
        Ok(None)
    }

    /// How many charge cycles the battery has seen.
    fn get_battery_cycles(&self) -> (r: Result<Option<u32>, HpdError>)
        default_ensures
            r == Ok::<Option<u32>, HpdError>(None),
    {
        Ok(None)
    }

    /// The mean CPU clock.
    fn get_cpu_freq_mhz(&self) -> (r: Result<Option<u32>, HpdError>)
        default_ensures
            r == Ok::<Option<u32>, HpdError>(None),
    {
        Ok(None)
    }

    /// The GPU clock.
    fn get_gpu_freq_mhz(&self) -> (r: Result<Option<u32>, HpdError>)
        default_ensures
            r == Ok::<Option<u32>, HpdError>(None),
    {
        Ok(None)
    }

    /// The GPU load, in percent.
    fn get_gpu_busy_pct(&self) -> (r: Result<Option<u8>, HpdError>)
        default_ensures
            r == Ok::<Option<u8>, HpdError>(None),
    {
        Ok(None)
    }

    /// The CPU load, in percent, since the reading before.
    fn get_cpu_busy_pct(&self) -> (r: Result<Option<u8>, HpdError>)
        default_ensures
            r == Ok::<Option<u8>, HpdError>(None),
    {
        Ok(None)
    }

    /// The video memory in use.
    fn get_vram_used_mb(&self) -> (r: Result<Option<u32>, HpdError>)
        default_ensures
            r == Ok::<Option<u32>, HpdError>(None),
    {
        Ok(None)
    }

    /// The video memory there is.
    fn get_vram_total_mb(&self) -> (r: Result<Option<u32>, HpdError>)
        default_ensures
            r == Ok::<Option<u32>, HpdError>(None),
    {
        Ok(None)
    }

    /// The GPU's throttle bits.
    fn get_gpu_throttle_status(&self) -> (r: Result<Option<u64>, HpdError>)
        default_ensures
            r == Ok::<Option<u64>, HpdError>(None),
    {
        Ok(None)
    }
}

} // verus!
