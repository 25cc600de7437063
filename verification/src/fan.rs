//! Fan speed readings.

use crate::error::HpdError;
use crate::units::Rpm;
use vstd::prelude::*;

verus! {

/// Readings of the fans.
pub trait FanControl: Send + Sync {
    /// The speed of the CPU fan.
    fn get_cpu_fan_rpm(&self) -> Result<Rpm, HpdError>;

    /// The speed of the GPU fan, where the device has one.
    fn get_gpu_fan_rpm(&self) -> Result<Option<Rpm>, HpdError>;
}

} // verus!
