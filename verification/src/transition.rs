//! What can happen to the state.

use crate::fan_curve::{FanCurve, FanCurvePreset, FanCurveSelection};
use crate::gpu_clock::GpuClockRange;
use crate::power::PowerEnvelopeTarget;
use crate::profile::{ProfileName, RuntimeConfig, TdpPreset};
use vstd::prelude::*;

verus! {

/// A request or an event.
#[derive(Debug)]
pub enum Transition {
    /// Move to a TDP preset.
    SetPreset(TdpPreset),
    /// Move to a sustained power limit, in watts.
    SetSpl(u32),
    /// Move to a whole power envelope.
    SetEnvelope(PowerEnvelopeTarget),
    /// Switch the platform profile.
    SetProfile(ProfileName),
    /// Run a cooling level.
    SetCoolingLevel(FanCurvePreset),
    /// Run a curve of one's own on each fan.
    SetCustomFanCurve { cpu: FanCurve, gpu: FanCurve },
    /// Hold the GPU clock to a range.
    SetGpuClockRange { min_mhz: u32, max_mhz: u32 },
    /// Let the GPU clock follow the power envelope.
    EnableGpuAutoFollow,
    /// Hand the GPU clock back to the firmware.
    ResetGpuClocks,
    /// Change the charge limit, in percent.
    ChargeThresholdChanged(u8),
    /// The hardware holds another power envelope than was thought.
    SyncPowerTarget(PowerEnvelopeTarget),
    /// The hardware is in another platform profile than was thought.
    SyncPlatformProfile(ProfileName),
    /// The hardware holds another charge limit than was thought.
    SyncChargeThreshold(u8),
    /// The fans run something else than was thought.
    SyncFanCurve(Option<FanCurveSelection>),
    /// The GPU clock is held to something else than was thought.
    SyncGpuClockRange(Option<GpuClockRange>),
    /// The charger was plugged in, or unplugged.
    AcPowerChanged(bool),
    /// The machine started, or woke up.
    SystemResumed,
    /// Turn the lock to maximum performance on AC on or off.
    SetAcMaxPerformance(bool),
    /// Let the fan curve follow the power envelope.
    EnableFanAuto,
    /// Hand the fans back to the firmware.
    ResetFanCurve,
    /// Return every lever to its recommended setting.
    RestoreDefaults,
    /// The configuration file was read again.
    ConfigReload(RuntimeConfig),
    /// The daemon is to stop.
    Shutdown,
}

impl Transition {
    /// Whether this asks to move a lever that AC may pin.
    pub open spec fn moves_a_lever(self) -> bool {
        match self {
            Transition::SetSpl(_) => true,
            Transition::SetPreset(_) => true,
            Transition::SetEnvelope(_) => true,
            Transition::SetProfile(_) => true,
            Transition::SetCoolingLevel(_) => true,
            Transition::SetCustomFanCurve { .. } => true,
            Transition::EnableFanAuto => true,
            Transition::ResetFanCurve => true,
            Transition::SetGpuClockRange { .. } => true,
            Transition::EnableGpuAutoFollow => true,
            Transition::ResetGpuClocks => true,
            Transition::RestoreDefaults => true,
            _ => false,
        }
    }

    /// Whether this only tells what the hardware holds.
    pub open spec fn is_sync(self) -> bool {
        match self {
            Transition::SyncPowerTarget(_) => true,
            Transition::SyncPlatformProfile(_) => true,
            Transition::SyncChargeThreshold(_) => true,
            Transition::SyncFanCurve(_) => true,
            Transition::SyncGpuClockRange(_) => true,
            _ => false,
        }
    }
}

/// Whether `transition` asks to move a lever that AC may pin.
pub fn is_locked_write(transition: &Transition) -> (r: bool)
    ensures
        r == transition.moves_a_lever(),
{
    match transition {
        Transition::SetSpl(_) => true,
        Transition::SetPreset(_) => true,
        Transition::SetEnvelope(_) => true,
        Transition::SetProfile(_) => true,
        Transition::SetCoolingLevel(_) => true,
        Transition::SetCustomFanCurve { .. } => true,
        Transition::EnableFanAuto => true,
        Transition::ResetFanCurve => true,
        Transition::SetGpuClockRange { .. } => true,
        Transition::EnableGpuAutoFollow => true,
        Transition::ResetGpuClocks => true,
        Transition::RestoreDefaults => true,
        _ => false,
    }
}

impl Clone for Transition {
    fn clone(&self) -> (r: Self)
        ensures
            r == *self,
    {
        match self {
            Transition::SetPreset(preset) => Transition::SetPreset(*preset),
            Transition::SetSpl(watts) => Transition::SetSpl(*watts),
            Transition::SetEnvelope(target) => Transition::SetEnvelope(*target),
            Transition::SetProfile(profile) => Transition::SetProfile(profile.clone()),
            Transition::SetCoolingLevel(preset) => Transition::SetCoolingLevel(*preset),
            Transition::SetCustomFanCurve { cpu, gpu } => Transition::SetCustomFanCurve {
                cpu: *cpu,
                gpu: *gpu,
            },
            Transition::SetGpuClockRange { min_mhz, max_mhz } => Transition::SetGpuClockRange {
                min_mhz: *min_mhz,
                max_mhz: *max_mhz,
            },
            Transition::EnableGpuAutoFollow => Transition::EnableGpuAutoFollow,
            Transition::ResetGpuClocks => Transition::ResetGpuClocks,
            Transition::ChargeThresholdChanged(threshold) => Transition::ChargeThresholdChanged(
                *threshold,
            ),
            Transition::SyncPowerTarget(target) => Transition::SyncPowerTarget(*target),
            Transition::SyncPlatformProfile(profile) => Transition::SyncPlatformProfile(
                profile.clone(),
            ),
            Transition::SyncChargeThreshold(threshold) => Transition::SyncChargeThreshold(
                *threshold,
            ),
            Transition::SyncFanCurve(selection) => Transition::SyncFanCurve(*selection),
            Transition::SyncGpuClockRange(range) => Transition::SyncGpuClockRange(*range),
            Transition::AcPowerChanged(plugged) => Transition::AcPowerChanged(*plugged),
            Transition::SystemResumed => Transition::SystemResumed,
            Transition::SetAcMaxPerformance(enabled) => Transition::SetAcMaxPerformance(*enabled),
            Transition::EnableFanAuto => Transition::EnableFanAuto,
            Transition::ResetFanCurve => Transition::ResetFanCurve,
            Transition::RestoreDefaults => Transition::RestoreDefaults,
            Transition::ConfigReload(config) => Transition::ConfigReload(*config),
            Transition::Shutdown => Transition::Shutdown,
        }
    }
}

} // verus!
