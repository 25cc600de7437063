//! What of the state is kept over restarts. What the hardware can tell anew is
//! not kept.

use crate::fan_curve::FanCurveSelection;
use crate::gpu_clock::GpuClockSelection;
use crate::power::PowerEnvelopeTarget;
use crate::profile::ProfileName;
use crate::state::{default_ac_max_performance, DcSnapshot, ProfileState};
use vstd::prelude::*;

verus! {

/// Where the state is kept.
#[derive(Debug)]
pub struct StatePersister {
    pub path: String,
}

impl StatePersister {
    /// The state is kept in the file at `path`.
    pub fn new(path: String) -> (r: Self)
        ensures
            r.path == path,
    {
        StatePersister { path }
    }
}

/// The kept part of the levers on battery. What an older file lacks is nothing.
#[derive(Debug)]
pub struct SavedSnapshot {
    pub power_target: PowerEnvelopeTarget,
    pub active_profile: ProfileName,
    pub active_fan_curve: Option<FanCurveSelection>,
    pub fan_follows_tdp: bool,
    pub active_gpu_clock: Option<GpuClockSelection>,
    pub gpu_follows_tdp: Option<bool>,
}

/// The kept part of the state. What an older file lacks is nothing.
#[derive(Debug)]
pub struct SavedState {
    pub power_target: PowerEnvelopeTarget,
    pub active_profile: ProfileName,
    pub charge_end_threshold: u8,
    pub fan_follows_tdp: bool,
    pub last_dc_state: Option<SavedSnapshot>,
    pub ac_max_performance: Option<bool>,
    pub active_fan_curve: Option<FanCurveSelection>,
    pub active_gpu_clock: Option<GpuClockSelection>,
    pub gpu_follows_tdp: Option<bool>,
}

/// `v`, or `fallback` where there is none.
pub open spec fn or_default(v: Option<bool>, fallback: bool) -> bool {
    match v {
        Some(v) => v,
        None => fallback,
    }
}

impl SavedSnapshot {
    /// The levers that were kept.
    pub open spec fn levers(self) -> DcSnapshot {
        DcSnapshot {
            power_target: self.power_target,
            active_profile: self.active_profile,
            active_fan_curve: self.active_fan_curve,
            fan_follows_tdp: self.fan_follows_tdp,
            active_gpu_clock: self.active_gpu_clock,
            gpu_follows_tdp: or_default(self.gpu_follows_tdp, false),
        }
    }

    /// What is kept of levers.
    pub open spec fn of(levers: DcSnapshot) -> SavedSnapshot {
        SavedSnapshot {
            power_target: levers.power_target,
            active_profile: levers.active_profile,
            active_fan_curve: levers.active_fan_curve,
            fan_follows_tdp: levers.fan_follows_tdp,
            active_gpu_clock: levers.active_gpu_clock,
            gpu_follows_tdp: Some(levers.gpu_follows_tdp),
        }
    }
}

impl SavedState {
    /// The state that was kept. The charger counts as unplugged until it is asked;
    /// the lock on AC is on unless the file says otherwise, and the GPU clock
    /// follows nothing unless the file says otherwise.
    pub open spec fn state(self) -> ProfileState {
        ProfileState {
            power_target: self.power_target,
            active_profile: self.active_profile,
            charge_end_threshold: self.charge_end_threshold,
            fan_follows_tdp: self.fan_follows_tdp,
            last_dc_state: match self.last_dc_state {
                Some(saved) => Some(saved.levers()),
                None => None,
            },
            ac_max_performance: or_default(self.ac_max_performance, true),
            active_fan_curve: self.active_fan_curve,
            active_gpu_clock: self.active_gpu_clock,
            gpu_follows_tdp: or_default(self.gpu_follows_tdp, false),
            is_ac_connected: false,
            ac_locked: false,
        }
    }

    /// What is kept of a state.
    pub open spec fn of(state: ProfileState) -> SavedState {
        SavedState {
            power_target: state.power_target,
            active_profile: state.active_profile,
            charge_end_threshold: state.charge_end_threshold,
            fan_follows_tdp: state.fan_follows_tdp,
            last_dc_state: match state.last_dc_state {
                Some(levers) => Some(SavedSnapshot::of(levers)),
                None => None,
            },
            ac_max_performance: Some(state.ac_max_performance),
            active_fan_curve: state.active_fan_curve,
            active_gpu_clock: state.active_gpu_clock,
            gpu_follows_tdp: Some(state.gpu_follows_tdp),
        }
    }
}

fn restore_levers(saved: SavedSnapshot) -> (r: DcSnapshot)
    ensures
        r == saved.levers(),
{
    DcSnapshot {
        power_target: saved.power_target,
        active_profile: saved.active_profile,
        active_fan_curve: saved.active_fan_curve,
        fan_follows_tdp: saved.fan_follows_tdp,
        active_gpu_clock: saved.active_gpu_clock,
        gpu_follows_tdp: match saved.gpu_follows_tdp {
            Some(follows) => follows,
            None => false,
        },
    }
}

impl StatePersister {
    /// What is to be kept of a state.
    pub fn save(&self, state: &ProfileState) -> (r: SavedState)
        ensures
            r == SavedState::of(*state),
    {
        let state = state.clone();
        SavedState {
            power_target: state.power_target,
            active_profile: state.active_profile,
            charge_end_threshold: state.charge_end_threshold,
            fan_follows_tdp: state.fan_follows_tdp,
            last_dc_state: match state.last_dc_state {
                Some(levers) => Some(
                    SavedSnapshot {
                        power_target: levers.power_target,
                        active_profile: levers.active_profile,
                        active_fan_curve: levers.active_fan_curve,
                        fan_follows_tdp: levers.fan_follows_tdp,
                        active_gpu_clock: levers.active_gpu_clock,
                        gpu_follows_tdp: Some(levers.gpu_follows_tdp),
                    },
                ),
                None => None,
            },
            ac_max_performance: Some(state.ac_max_performance),
            active_fan_curve: state.active_fan_curve,
            active_gpu_clock: state.active_gpu_clock,
            gpu_follows_tdp: Some(state.gpu_follows_tdp),
        }
    }

    /// The state that was kept; nothing where no file could be read and understood.
    pub fn load(&self, saved: Option<SavedState>) -> (r: Option<ProfileState>)
        ensures
            r == (match saved {
                Some(saved) => Some(saved.state()),
                None => None,
            }),
    {
        match saved {
            None => None,
            Some(saved) => Some(
                ProfileState {
                    power_target: saved.power_target,
                    active_profile: saved.active_profile,
                    charge_end_threshold: saved.charge_end_threshold,
                    fan_follows_tdp: saved.fan_follows_tdp,
                    last_dc_state: match saved.last_dc_state {
                        Some(levers) => Some(restore_levers(levers)),
                        None => None,
                    },
                    ac_max_performance: match saved.ac_max_performance {
                        Some(locked) => locked,
                        None => default_ac_max_performance(),
                    },
                    active_fan_curve: saved.active_fan_curve,
                    active_gpu_clock: saved.active_gpu_clock,
                    gpu_follows_tdp: match saved.gpu_follows_tdp {
                        Some(follows) => follows,
                        None => false,
                    },
                    is_ac_connected: false,
                    ac_locked: false,
                },
            ),
        }
    }
}

/// A state that is kept and read back is the same, but for what the hardware
/// tells anew.
pub proof fn saved_state_comes_back(state: ProfileState)
    ensures
        SavedState::of(state).state() == (ProfileState {
            is_ac_connected: false,
            ac_locked: false,
            ..state
        }),
{
}

/// What is written and read again is the state that was written, but for what the hardware
/// tells anew; and nothing is read where nothing was written.
pub proof fn what_is_written_is_read_again(
    persister: StatePersister,
    state: ProfileState,
    saved: SavedState,
    r: Option<ProfileState>,
    none: Option<ProfileState>,
)
    requires
        call_ensures(StatePersister::save, (&persister, &state), saved),
        call_ensures(StatePersister::load, (&persister, Some(saved)), r),
        call_ensures(StatePersister::load, (&persister, None::<SavedState>), none),
    ensures
        r == Some(ProfileState { is_ac_connected: false, ac_locked: false, ..state }),
        none is None,
{
}

/// What a file from before a setting existed lacks is the safe choice: the lock is on, and the
/// GPU clock follows nothing. Everything else is as the file has it.
pub proof fn older_files_are_read_safely(
    persister: StatePersister,
    saved: SavedState,
    r: Option<ProfileState>,
)
    requires
        call_ensures(StatePersister::load, (&persister, Some(saved)), r),
    ensures
        r matches Some(state) && {
            &&& saved.ac_max_performance is None ==> state.ac_max_performance
            &&& saved.ac_max_performance matches Some(on) ==> state.ac_max_performance == on
            &&& saved.gpu_follows_tdp is None ==> !state.gpu_follows_tdp
            &&& saved.gpu_follows_tdp matches Some(on) ==> state.gpu_follows_tdp == on
            &&& state.power_target == saved.power_target
            &&& state.active_profile == saved.active_profile
            &&& state.charge_end_threshold == saved.charge_end_threshold
            &&& state.fan_follows_tdp == saved.fan_follows_tdp
            &&& state.active_fan_curve == saved.active_fan_curve
            &&& state.active_gpu_clock == saved.active_gpu_clock
            &&& state.last_dc_state is Some <==> saved.last_dc_state is Some
            &&& !state.is_ac_connected
        },
{
}

} // verus!
