//! What a change of state asks of the hardware and the disk.

use crate::fan_curve::FanCurveSelection;
use crate::gpu_clock::GpuClockSelection;
use crate::power::PowerEnvelopeTarget;
use crate::profile::ProfileName;
use vstd::prelude::*;

verus! {

/// One thing to be done, in the order given.
#[derive(Debug, PartialEq)]
pub enum Effect {
    /// Program the power envelope.
    ApplyPowerEnvelope(PowerEnvelopeTarget),
    /// Switch the platform profile.
    ApplyPlatformProfile(ProfileName),
    /// Set the charge limit.
    ApplyChargeThreshold(u8),
    /// Program the fans.
    ApplyFanCurve(FanCurveSelection),
    /// Hand the fans back to the firmware.
    ResetFanCurve,
    /// Hold the GPU clock to a range.
    ApplyGpuClockRange(GpuClockSelection),
    /// Hand the GPU clock back to the firmware.
    ResetGpuClocks,
    /// Keep the state over restarts.
    PersistState,
}

impl Clone for Effect {
    fn clone(&self) -> (r: Self)
        ensures
            r == *self,
    {
        match self {
            Effect::ApplyPowerEnvelope(target) => Effect::ApplyPowerEnvelope(*target),
            Effect::ApplyPlatformProfile(profile) => Effect::ApplyPlatformProfile(profile.clone()),
            Effect::ApplyChargeThreshold(threshold) => Effect::ApplyChargeThreshold(*threshold),
            Effect::ApplyFanCurve(selection) => Effect::ApplyFanCurve(*selection),
            Effect::ResetFanCurve => Effect::ResetFanCurve,
            Effect::ApplyGpuClockRange(selection) => Effect::ApplyGpuClockRange(*selection),
            Effect::ResetGpuClocks => Effect::ResetGpuClocks,
            Effect::PersistState => Effect::PersistState,
        }
    }
}

} // verus!
