//! The configuration of the daemon. Any part of the file may be missing, and a
//! file that cannot be understood counts as missing: the daemon never stays down
//! over its configuration.

use crate::charge::DEFAULT_CHARGE_THRESHOLD;
use crate::executor::TRANSITION_CHANNEL_CAPACITY;
use crate::fan_curve::FanCurvePreset;
use crate::profile;
use crate::profile::{GpuClockFractions, ProfileName, ProfileThresholds, RuntimeConfig};
use crate::single::Single;
use crate::state::default_ac_max_performance;
use crate::text;
use vstd::prelude::*;

verus! {

/// Where the state is kept, unless something else is configured.
pub const DEFAULT_STATE_PATH: &'static str = "/var/lib/hpd/state.toml";

/// The most transitions that a channel can be told to hold.
pub const MAX_CHANNEL_CAPACITY: usize = usize::MAX / 8;

/// The configuration in force.
#[derive(Debug, PartialEq)]
pub struct DaemonConfig {
    /// Where the state is kept.
    pub state_path: String,
    /// How many transitions may wait for the executor.
    pub channel_capacity: usize,
    /// The charge limit of a first start, where the hardware does not tell one.
    pub default_charge_threshold: u8,
    /// The cooling level of a first start; nothing for the firmware's own.
    pub default_fan_curve: Option<FanCurvePreset>,
    /// The platform profile of every start.
    pub default_platform_profile: ProfileName,
    /// Whether AC pins maximum performance, on a first start.
    pub default_ac_max_performance: bool,
    /// What may change while the daemon runs.
    pub runtime: RuntimeConfig,
}

/// What a configuration file says. What it does not say is nothing.
#[derive(Debug)]
pub struct ConfigFile {
    pub state_path: Option<String>,
    pub channel_capacity: Option<usize>,
    pub default_charge_threshold: Option<u8>,
    pub default_fan_curve: Option<FanCurvePreset>,
    pub default_platform_profile: Option<String>,
    pub default_ac_max_performance: Option<bool>,
    pub low_frac: Option<Single>,
    pub high_frac: Option<Single>,
    pub sppt_factor: Option<Single>,
    pub fppt_factor: Option<Single>,
    pub silent_max_frac: Option<Single>,
    pub balanced_max_frac: Option<Single>,
    pub aggressive_max_frac: Option<Single>,
}

/// `v`, or `fallback` where there is none.
pub open spec fn number_or(v: Option<Single>, fallback: Single) -> Single {
    match v {
        Some(v) => v,
        None => fallback,
    }
}

fn pick_number(v: Option<Single>, fallback: Single) -> (r: Single)
    ensures
        r == number_or(v, fallback),
{
    match v {
        Some(v) => v,
        None => fallback,
    }
}

/// How many transitions may wait, where the file asks for `asked`: the standard
/// number where it asks for none, or for one that no channel can have.
pub open spec fn capacity_or_standard(asked: Option<usize>) -> usize {
    match asked {
        Some(capacity) => if 0 < capacity <= MAX_CHANNEL_CAPACITY {
            capacity
        } else {
            TRANSITION_CHANNEL_CAPACITY
        },
        None => TRANSITION_CHANNEL_CAPACITY,
    }
}

fn pick_capacity(asked: Option<usize>) -> (r: usize)
    ensures
        r == capacity_or_standard(asked),
{
    match asked {
        Some(capacity) => if 0 < capacity && capacity <= MAX_CHANNEL_CAPACITY {
            capacity
        } else {
            TRANSITION_CHANNEL_CAPACITY
        },
        None => TRANSITION_CHANNEL_CAPACITY,
    }
}

/// Whether `r` is the platform profile that the file asks for: performance
/// where it asks for none, or for a blank one.
pub open spec fn profile_chosen(asked: Option<String>, r: ProfileName) -> bool {
    match asked {
        Some(name) => if text::trimmed(name@).len() == 0 {
            r is Performance
        } else {
            r.is_named(name@)
        },
        None => r is Performance,
    }
}

/// The platform profile that the file asks for.
pub fn choose_profile(asked: Option<String>) -> (r: ProfileName)
    ensures
        profile_chosen(asked, r),
{
    match asked {
        Some(name) => match ProfileName::from_str(name.as_str()) {
            Ok(profile) => profile,
            Err(_) => ProfileName::Performance,
        },
        None => ProfileName::Performance,
    }
}

impl ConfigFile {
    /// The tuning that the file asks for.
    pub open spec fn tuning(self) -> RuntimeConfig {
        let standard = RuntimeConfig::standard();
        RuntimeConfig {
            profile_thresholds: ProfileThresholds {
                low_frac: number_or(self.low_frac, standard.profile_thresholds.low_frac),
                high_frac: number_or(self.high_frac, standard.profile_thresholds.high_frac),
            },
            sppt_factor: number_or(self.sppt_factor, standard.sppt_factor),
            fppt_factor: number_or(self.fppt_factor, standard.fppt_factor),
            gpu_clock_fractions: GpuClockFractions {
                silent_max_frac: number_or(
                    self.silent_max_frac,
                    standard.gpu_clock_fractions.silent_max_frac,
                ),
                balanced_max_frac: number_or(
                    self.balanced_max_frac,
                    standard.gpu_clock_fractions.balanced_max_frac,
                ),
                aggressive_max_frac: number_or(
                    self.aggressive_max_frac,
                    standard.gpu_clock_fractions.aggressive_max_frac,
                ),
            },
        }
    }

    /// The tuning that the file asks for.
    fn read_tuning(&self) -> (r: RuntimeConfig)
        ensures
            r == self.tuning(),
    {
        let standard = RuntimeConfig::default();
        RuntimeConfig {
            profile_thresholds: ProfileThresholds {
                low_frac: pick_number(self.low_frac, standard.profile_thresholds.low_frac),
                high_frac: pick_number(self.high_frac, standard.profile_thresholds.high_frac),
            },
            sppt_factor: pick_number(self.sppt_factor, standard.sppt_factor),
            fppt_factor: pick_number(self.fppt_factor, standard.fppt_factor),
            gpu_clock_fractions: GpuClockFractions {
                silent_max_frac: pick_number(
                    self.silent_max_frac,
                    standard.gpu_clock_fractions.silent_max_frac,
                ),
                balanced_max_frac: pick_number(
                    self.balanced_max_frac,
                    standard.gpu_clock_fractions.balanced_max_frac,
                ),
                aggressive_max_frac: pick_number(
                    self.aggressive_max_frac,
                    standard.gpu_clock_fractions.aggressive_max_frac,
                ),
            },
        }
    }

    /// Whether `r` is the configuration that the file comes to: the standard one
    /// where the file says nothing, or nothing that can be put to use.
    pub open spec fn resolves_to(self, r: DaemonConfig) -> bool {
        &&& r.state_path@ == (match self.state_path {
            Some(path) => path@,
            None => DEFAULT_STATE_PATH@,
        })
        &&& r.channel_capacity == capacity_or_standard(self.channel_capacity)
        &&& r.default_charge_threshold == (match self.default_charge_threshold {
            Some(threshold) => threshold,
            None => DEFAULT_CHARGE_THRESHOLD,
        })
        &&& r.default_fan_curve == (match self.default_fan_curve {
            Some(preset) => Some(preset),
            None => Some(FanCurvePreset::Balanced),
        })
        &&& profile_chosen(self.default_platform_profile, r.default_platform_profile)
        &&& r.default_ac_max_performance == (match self.default_ac_max_performance {
            Some(locked) => locked,
            None => true,
        })
        &&& r.runtime == self.tuning().mended()
    }

    /// The configuration that the file comes to.
    pub fn resolve(self) -> (r: DaemonConfig)
        ensures
            self.resolves_to(r),
    {
        let runtime = self.read_tuning().sanitized();
        DaemonConfig {
            state_path: match self.state_path {
                Some(path) => path,
                None => DEFAULT_STATE_PATH.to_owned(),
            },
            channel_capacity: pick_capacity(self.channel_capacity),
            default_charge_threshold: match self.default_charge_threshold {
                Some(threshold) => threshold,
                None => DEFAULT_CHARGE_THRESHOLD,
            },
            default_fan_curve: match self.default_fan_curve {
                Some(preset) => Some(preset),
                None => Some(FanCurvePreset::Balanced),
            },
            default_platform_profile: choose_profile(self.default_platform_profile),
            default_ac_max_performance: match self.default_ac_max_performance {
                Some(locked) => locked,
                None => default_ac_max_performance(),
            },
            runtime,
        }
    }
}

impl DaemonConfig {
    /// Whether this is the configuration of a fresh install.
    pub open spec fn is_standard(self) -> bool {
        &&& self.state_path@ == DEFAULT_STATE_PATH@
        &&& self.channel_capacity == TRANSITION_CHANNEL_CAPACITY
        &&& self.default_charge_threshold == DEFAULT_CHARGE_THRESHOLD
        &&& self.default_fan_curve == Some(FanCurvePreset::Balanced)
        &&& self.default_platform_profile is Performance
        &&& self.default_ac_max_performance
        &&& self.runtime == RuntimeConfig::standard()
    }

    /// The configuration that the file comes to; the standard one where there is
    /// no file, or none that can be read and understood.
    pub fn load(file: Option<ConfigFile>) -> (r: Self)
        ensures
            match file {
                Some(file) => file.resolves_to(r),
                None => r.is_standard(),
            },
    {
        match file {
            Some(file) => file.resolve(),
            None => DaemonConfig::default(),
        }
    }

    /// What may change while the daemon runs.
    pub fn to_runtime(&self) -> (r: RuntimeConfig)
        ensures
            r == self.runtime,
    {
        self.runtime
    }
}

impl Default for DaemonConfig {
    fn default() -> (r: Self)
        ensures
            r.is_standard(),
    {
        DaemonConfig {
            state_path: DEFAULT_STATE_PATH.to_owned(),
            channel_capacity: TRANSITION_CHANNEL_CAPACITY,
            default_charge_threshold: DEFAULT_CHARGE_THRESHOLD,
            default_fan_curve: Some(FanCurvePreset::Balanced),
            default_platform_profile: ProfileName::Performance,
            default_ac_max_performance: default_ac_max_performance(),
            runtime: RuntimeConfig::default(),
        }
    }
}

/// A file that says nothing comes to the standard configuration.
pub proof fn silent_file_is_standard(file: ConfigFile, config: DaemonConfig)
    requires
        file.resolves_to(config),
        file.state_path is None,
        file.channel_capacity is None,
        file.default_charge_threshold is None,
        file.default_fan_curve is None,
        file.default_platform_profile is None,
        file.default_ac_max_performance is None,
        file.low_frac is None,
        file.high_frac is None,
        file.sppt_factor is None,
        file.fppt_factor is None,
        file.silent_max_frac is None,
        file.balanced_max_frac is None,
        file.aggressive_max_frac is None,
    ensures
        config.is_standard(),
{
    profile::standard_tuning_needs_no_mending();
}

/// Whatever a file says, what it comes to can be run: the channel holds at least
/// one transition and no more than a channel can, and the tuning needs no mending.
pub proof fn resolved_configuration_can_be_run(file: ConfigFile, config: DaemonConfig)
    requires
        file.resolves_to(config),
    ensures
        0 < config.channel_capacity <= MAX_CHANNEL_CAPACITY,
        config.runtime.mended() == config.runtime,
        profile::valid_factor(config.runtime.sppt_factor),
        profile::valid_factor(config.runtime.fppt_factor),
{
    profile::mending_is_idempotent(file.tuning());
}

/// What a file says is what comes of it, each setting its own. What cannot be put to use
/// is the default of that setting alone.
pub proof fn settings_are_taken_one_by_one(file: ConfigFile, r: DaemonConfig)
    requires
        call_ensures(ConfigFile::resolve, (file,), r),
    ensures
        file.state_path matches Some(path) ==> r.state_path@ == path@,
        file.state_path is None ==> r.state_path@ == "/var/lib/hpd/state.toml"@,
        file.channel_capacity matches Some(n) ==> (0 < n <= MAX_CHANNEL_CAPACITY
            ==> r.channel_capacity == n),
        file.channel_capacity matches Some(n) ==> (n == 0 || n > MAX_CHANNEL_CAPACITY
            ==> r.channel_capacity == 32),
        file.channel_capacity is None ==> r.channel_capacity == 32,
        file.default_charge_threshold matches Some(limit) ==> r.default_charge_threshold == limit,
        file.default_charge_threshold is None ==> r.default_charge_threshold == 80,
        file.default_fan_curve matches Some(level) ==> r.default_fan_curve == Some(level),
        file.default_fan_curve is None ==> r.default_fan_curve == Some(FanCurvePreset::Balanced),
        file.default_ac_max_performance matches Some(on) ==> r.default_ac_max_performance == on,
        file.default_ac_max_performance is None ==> r.default_ac_max_performance,
        file.default_platform_profile is None ==> r.default_platform_profile is Performance,
        file.default_platform_profile matches Some(name) ==> (text::trimmed(name@).len() > 0
            ==> profile::goes_by(r.default_platform_profile, name@)),
        file.default_platform_profile matches Some(name) ==> (text::trimmed(name@).len() == 0
            ==> r.default_platform_profile is Performance),
{
}

/// The tuning that a file asks for is the one that comes of it, each number its own: a
/// factor that is finite and at least one, thresholds in order within the unit interval,
/// and any share of the GPU clock.
pub proof fn tuning_is_taken_one_by_one(file: ConfigFile, r: DaemonConfig)
    requires
        call_ensures(ConfigFile::resolve, (file,), r),
    ensures
        ({
            let one = (Single { bits: profile::ONE }).value();
            let tuning = r.runtime;
            &&& file.sppt_factor matches Some(f) ==> (f.finite() && f.value() >= one
                ==> tuning.sppt_factor == f)
            &&& file.fppt_factor matches Some(f) ==> (f.finite() && f.value() >= one
                ==> tuning.fppt_factor == f)
            &&& file.sppt_factor is None ==> tuning.sppt_factor.bits
                == profile::DEFAULT_SPPT_FACTOR
            &&& file.fppt_factor is None ==> tuning.fppt_factor.bits
                == profile::DEFAULT_FPPT_FACTOR
            &&& file.low_frac matches Some(low) ==> (file.high_frac matches Some(high) ==> (
            low.finite() && high.finite() && 0 <= low.value() <= high.value() <= one
                ==> tuning.profile_thresholds.low_frac == low
                && tuning.profile_thresholds.high_frac == high))
            &&& file.silent_max_frac matches Some(f)
                ==> tuning.gpu_clock_fractions.silent_max_frac == f
            &&& file.balanced_max_frac matches Some(f)
                ==> tuning.gpu_clock_fractions.balanced_max_frac == f
            &&& file.aggressive_max_frac matches Some(f)
                ==> tuning.gpu_clock_fractions.aggressive_max_frac == f
        }),
{
    profile::standard_factors_stay();
    profile::mending_keeps_sound_parts(file.tuning());
}

/// The tuning that the daemon runs with is that of its configuration, and a file that
/// cannot be read or understood counts as one that says nothing.
pub proof fn no_file_is_a_silent_file(config: DaemonConfig, r: RuntimeConfig, d: DaemonConfig)
    requires
        call_ensures(DaemonConfig::to_runtime, (&config,), r),
        call_ensures(DaemonConfig::load, (None::<ConfigFile>,), d),
    ensures
        r == config.runtime,
        d.state_path@ == "/var/lib/hpd/state.toml"@,
        d.default_charge_threshold == 80,
        d.default_fan_curve == Some(FanCurvePreset::Balanced),
        d.default_platform_profile is Performance,
        d.default_ac_max_performance,
        d.channel_capacity > 0,
{
}

} // verus!
