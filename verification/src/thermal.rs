//! Temperature and power-draw readings.

use crate::error::HpdError;
use crate::units::{Celsius, PowerMilliwatts};
use vstd::prelude::*;

verus! {

/// Readings of the thermal sensors. A sensor that the hardware does not have
/// reads as nothing, which is no error.
pub trait ThermalSensors: Send + Sync {
    /// The CPU temperature.
    fn get_cpu_temp(&self) -> Result<Option<Celsius>, HpdError>;

    /// The GPU temperature.
    fn get_gpu_temp(&self) -> Result<Option<Celsius>, HpdError>;

    /// The power that the SoC draws.
    fn get_soc_power(&self) -> Result<Option<PowerMilliwatts>, HpdError>;
}

} // verus!
