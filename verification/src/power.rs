//! The power envelope of the APU: sustained, short and fast package limits.

use crate::error::HpdError;
use crate::units::PowerMilliwatts;
use vstd::prelude::*;

verus! {

/// The range that the hardware accepts on each rail.
#[derive(Debug, Clone, Copy, PartialEq, Eq, Structural)]
pub struct PowerEnvelopeLimits {
    pub spl_min: PowerMilliwatts,
    pub spl_max: PowerMilliwatts,
    pub sppt_min: PowerMilliwatts,
    pub sppt_max: PowerMilliwatts,
    pub fppt_min: PowerMilliwatts,
    pub fppt_max: PowerMilliwatts,
}

/// The power asked for on each rail: sustained (SPL), slow boost (SPPT) and,
/// where the device has it, fast boost (FPPT).
#[derive(Debug, Clone, Copy, PartialEq, Eq, Structural)]
pub struct PowerEnvelopeTarget {
    pub spl: PowerMilliwatts,
    pub sppt: PowerMilliwatts,
    pub fppt: Option<PowerMilliwatts>,
}

/// Control of the power envelope.
pub trait PowerEnvelope: Send + Sync {
    /// The range that the hardware accepts.
    fn get_limits(&self) -> Result<PowerEnvelopeLimits, HpdError>;

    /// The envelope that the hardware holds now.
    fn get_target(&self) -> Result<PowerEnvelopeTarget, HpdError>;

    /// Program an envelope.
    fn set_target(&self, target: &PowerEnvelopeTarget) -> Result<(), HpdError>;
}

} // verus!
