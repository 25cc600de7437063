//! The state of the daemon.

use crate::fan_curve::FanCurveSelection;
use crate::gpu_clock::GpuClockSelection;
use crate::power::PowerEnvelopeTarget;
use crate::profile::ProfileName;
use vstd::prelude::*;

verus! {

/// Whether the lock to maximum performance on AC is on where nothing says
/// otherwise.
pub fn default_ac_max_performance() -> (r: bool)
    ensures
        r,
{
    true
}

/// What the levers stood at on battery, kept while AC pins them.
#[derive(Debug, PartialEq)]
pub struct DcSnapshot {
    pub power_target: PowerEnvelopeTarget,
    pub active_profile: ProfileName,
    pub active_fan_curve: Option<FanCurveSelection>,
    pub fan_follows_tdp: bool,
    pub active_gpu_clock: Option<GpuClockSelection>,
    pub gpu_follows_tdp: bool,
}

/// The state of the daemon. The last two fields are live readings, the others
/// are kept over restarts.
#[derive(Debug, PartialEq)]
pub struct ProfileState {
    /// The power envelope.
    pub power_target: PowerEnvelopeTarget,
    /// The platform profile.
    pub active_profile: ProfileName,
    /// The charge limit, in percent.
    pub charge_end_threshold: u8,
    /// Whether the fan curve follows the power envelope.
    pub fan_follows_tdp: bool,
    /// What to return to when the charger is unplugged.
    pub last_dc_state: Option<DcSnapshot>,
    /// Whether AC pins maximum performance.
    pub ac_max_performance: bool,
    /// The fan curve; nothing where the firmware is in charge.
    pub active_fan_curve: Option<FanCurveSelection>,
    /// The GPU clock; nothing where the firmware is in charge.
    pub active_gpu_clock: Option<GpuClockSelection>,
    /// Whether the GPU clock follows the power envelope.
    pub gpu_follows_tdp: bool,
    /// Whether the charger is plugged in.
    pub is_ac_connected: bool,
    /// Whether the levers are locked right now.
    pub ac_locked: bool,
}

impl Clone for DcSnapshot {
    fn clone(&self) -> (r: Self)
        ensures
            r == *self,
    {
        DcSnapshot {
            power_target: self.power_target,
            active_profile: self.active_profile.clone(),
            active_fan_curve: self.active_fan_curve,
            fan_follows_tdp: self.fan_follows_tdp,
            active_gpu_clock: self.active_gpu_clock,
            gpu_follows_tdp: self.gpu_follows_tdp,
        }
    }
}

impl Clone for ProfileState {
    fn clone(&self) -> (r: Self)
        ensures
            r == *self,
    {
        ProfileState {
            power_target: self.power_target,
            active_profile: self.active_profile.clone(),
            charge_end_threshold: self.charge_end_threshold,
            fan_follows_tdp: self.fan_follows_tdp,
            last_dc_state: match &self.last_dc_state {
                Some(snapshot) => Some(snapshot.clone()),
                None => None,
            },
            ac_max_performance: self.ac_max_performance,
            active_fan_curve: self.active_fan_curve,
            active_gpu_clock: self.active_gpu_clock,
            gpu_follows_tdp: self.gpu_follows_tdp,
            is_ac_connected: self.is_ac_connected,
            ac_locked: self.ac_locked,
        }
    }
}

impl ProfileState {
    /// What the levers stand at.
    pub open spec fn levers(self) -> DcSnapshot {
        DcSnapshot {
            power_target: self.power_target,
            active_profile: self.active_profile,
            active_fan_curve: self.active_fan_curve,
            fan_follows_tdp: self.fan_follows_tdp,
            active_gpu_clock: self.active_gpu_clock,
            gpu_follows_tdp: self.gpu_follows_tdp,
        }
    }

    /// Whether AC pins maximum performance right now.
    pub open spec fn pinned(self) -> bool {
        self.is_ac_connected && self.ac_max_performance
    }

    /// What the levers stand at.
    pub fn snapshot(&self) -> (r: DcSnapshot)
        ensures
            r == self.levers(),
    {
        DcSnapshot {
            power_target: self.power_target,
            active_profile: self.active_profile.clone(),
            active_fan_curve: self.active_fan_curve,
            fan_follows_tdp: self.fan_follows_tdp,
            active_gpu_clock: self.active_gpu_clock,
            gpu_follows_tdp: self.gpu_follows_tdp,
        }
    }
}

} // verus!
