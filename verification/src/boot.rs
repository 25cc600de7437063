//! The start of the daemon: its arguments, its files, and the state that it
//! starts from.

use crate::backend::{HwBackend, PowerHandle};
use crate::charge::ChargeControl;
use crate::config::DaemonConfig;
use crate::error::HpdError;
use crate::executor;
use crate::fan_curve::FanCurveSelection;
use crate::platform_profile::PlatformProfile;
use crate::power::{PowerEnvelope, PowerEnvelopeLimits, PowerEnvelopeTarget};
use crate::profile::ProfileName;
use crate::state::ProfileState;
use crate::text;
use crate::transition::Transition;
use vstd::prelude::*;

verus! {

// ---------------------------------------------------------------------------
// Arguments and files
// ---------------------------------------------------------------------------

/// What the arguments ask for.
#[derive(Debug)]
pub enum Invocation {
    /// To run.
    Run,
    /// To print the help text.
    Help,
    /// To print the version.
    Version,
    /// Nothing that is known; this is the first argument.
    Unknown(String),
}

/// Whether some argument is one of two spellings.
pub open spec fn asks(args: Seq<Seq<char>>, short: Seq<char>, long: Seq<char>) -> bool {
    args.contains(short) || args.contains(long)
}

fn holds_either(args: &Vec<String>, short: &str, long: &str) -> (r: bool)
    ensures
        r == asks(text::texts(args@), short@, long@),
{
    let ghost all = text::texts(args@);
    let mut i: usize = 0;
    while i < args.len()
        invariant
            i <= args.len(),
            all == text::texts(args@),
            forall|k: int| 0 <= k < i ==> all[k] != short@ && all[k] != long@,
        decreases args.len() - i,
    {
        if text::same(args[i].as_str(), short) || text::same(args[i].as_str(), long) {
            assert(all[i as int] == short@ || all[i as int] == long@);
            return true;
        }
        i = i + 1;
    }
    false
}

/// What the arguments ask for. Help outranks the version, and both outrank what
/// is not known.
pub fn interpret_args(args: &Vec<String>) -> (r: Invocation)
    ensures
        if asks(text::texts(args@), "-h"@, "--help"@) {
            r is Help
        } else if asks(text::texts(args@), "-V"@, "--version"@) {
            r is Version
        } else if args@.len() > 0 {
            r == Invocation::Unknown(args@[0])
        } else {
            r is Run
        },
{
    if holds_either(args, "-h", "--help") {
        Invocation::Help
    } else if holds_either(args, "-V", "--version") {
        Invocation::Version
    } else if args.len() > 0 {
        Invocation::Unknown(args[0].clone())
    } else {
        Invocation::Run
    }
}

/// The path of a file in a directory.
pub open spec fn in_directory(dir: Seq<char>, name: Seq<char>) -> Seq<char> {
    if dir.len() == 0 || text::has_suffix(dir, "/"@) {
        dir + name
    } else {
        dir + "/"@ + name
    }
}

/// The path of a file in a directory.
pub fn join_path(dir: &str, name: &str) -> (r: String)
    ensures
        r@ == in_directory(dir@, name@),
{
    let mut path = dir.to_owned();
    if !dir.is_empty() && !text::ends_with(dir, "/") {
        path.append("/");
    }
    path.append(name);
    path
}

/// The configuration file: in the directory that the service manager names, or
/// at its usual place.
pub fn config_file(configuration_directory: Option<&str>) -> (r: String)
    ensures
        r@ == (match configuration_directory {
            Some(dir) => in_directory(dir@, "config.toml"@),
            None => "/etc/hpd/config.toml"@,
        }),
{
    match configuration_directory {
        Some(dir) => join_path(dir, "config.toml"),
        None => "/etc/hpd/config.toml".to_owned(),
    }
}

/// The state file: in the directory that the service manager names, or where
/// the configuration has it.
pub fn state_file(state_directory: Option<&str>, config: &DaemonConfig) -> (r: String)
    ensures
        r@ == (match state_directory {
            Some(dir) => in_directory(dir@, "state.toml"@),
            None => config.state_path@,
        }),
{
    match state_directory {
        Some(dir) => join_path(dir, "state.toml"),
        None => config.state_path.clone(),
    }
}

// ---------------------------------------------------------------------------
// The first state
// ---------------------------------------------------------------------------

/// Whether the charger is plugged in; it counts as unplugged where that is not
/// known.
pub open spec fn plugged(charger: Option<Result<bool, HpdError>>) -> bool {
    charger matches Some(Ok(is_plugged)) && is_plugged
}

/// The state of a first start, from what the hardware tells. What it does not
/// tell is the lowest power on every rail, the balanced profile and the
/// configured charge limit. The GPU clock is left alone.
pub open spec fn first_state(
    target: Option<PowerEnvelopeTarget>,
    profile: Option<ProfileName>,
    threshold: Option<u8>,
    is_plugged: bool,
    limits: PowerEnvelopeLimits,
    config: DaemonConfig,
) -> ProfileState {
    ProfileState {
        power_target: match target {
            Some(target) => target,
            None => PowerEnvelopeTarget {
                spl: limits.spl_min,
                sppt: limits.spl_min,
                fppt: Some(limits.spl_min),
            },
        },
        active_profile: match profile {
            Some(profile) => profile,
            None => ProfileName::Balanced,
        },
        charge_end_threshold: match threshold {
            Some(threshold) => threshold,
            None => config.default_charge_threshold,
        },
        fan_follows_tdp: true,
        last_dc_state: None,
        ac_max_performance: config.default_ac_max_performance,
        active_fan_curve: None,
        active_gpu_clock: None,
        gpu_follows_tdp: false,
        is_ac_connected: is_plugged,
        ac_locked: false,
    }
}

/// The state of a first start, from what the hardware tells.
pub fn make_first_state(
    target: Option<PowerEnvelopeTarget>,
    profile: Option<ProfileName>,
    threshold: Option<u8>,
    is_plugged: bool,
    limits: &PowerEnvelopeLimits,
    config: &DaemonConfig,
) -> (r: ProfileState)
    ensures
        r == first_state(target, profile, threshold, is_plugged, *limits, *config),
{
    ProfileState {
        power_target: match target {
            Some(target) => target,
            None => PowerEnvelopeTarget {
                spl: limits.spl_min,
                sppt: limits.spl_min,
                fppt: Some(limits.spl_min),
            },
        },
        active_profile: match profile {
            Some(profile) => profile,
            None => ProfileName::Balanced,
        },
        charge_end_threshold: match threshold {
            Some(threshold) => threshold,
            None => config.default_charge_threshold,
        },
        fan_follows_tdp: true,
        last_dc_state: None,
        ac_max_performance: config.default_ac_max_performance,
        active_fan_curve: None,
        active_gpu_clock: None,
        gpu_follows_tdp: false,
        is_ac_connected: is_plugged,
        ac_locked: false,
    }
}

/// The state that the daemon brings the hardware to at its start: the platform
/// profile is the configured one, and so is the cooling where none is kept.
pub open spec fn intended(state: ProfileState, config: DaemonConfig) -> ProfileState {
    ProfileState {
        active_fan_curve: match state.active_fan_curve {
            Some(selection) => Some(selection),
            None => match config.default_fan_curve {
                Some(preset) => Some(FanCurveSelection::Preset(preset)),
                None => None,
            },
        },
        active_profile: config.default_platform_profile,
        ..state
    }
}

/// The state that the daemon brings the hardware to at its start.
pub fn intend(state: ProfileState, config: &DaemonConfig) -> (r: ProfileState)
    ensures
        r == intended(state, *config),
{
    let mut state = state;
    state.active_fan_curve = match state.active_fan_curve {
        Some(selection) => Some(selection),
        None => match config.default_fan_curve {
            Some(preset) => Some(FanCurveSelection::Preset(preset)),
            None => None,
        },
    };
    state.active_profile = config.default_platform_profile.clone();
    state
}

/// What is left of a result.
pub open spec fn told<T>(r: Result<T, HpdError>) -> Option<T> {
    match r {
        Ok(v) => Some(v),
        Err(_) => None,
    }
}

fn keep_told<T>(r: Result<T, HpdError>) -> (v: Option<T>)
    ensures
        v == told(r),
{
    match r {
        Ok(v) => Some(v),
        Err(_) => None,
    }
}

/// Whether the hardware told this power envelope.
pub open spec fn target_told<B: HwBackend + ?Sized>(b: &B, r: Option<PowerEnvelopeTarget>) -> bool {
    exists|cap: PowerHandle| #[trigger]
        call_ensures(B::power, (b,), cap) && target_returned(cap.0, r)
}

/// Whether the power control told this envelope.
pub open spec fn target_returned<P: PowerEnvelope + ?Sized>(
    p: &P,
    r: Option<PowerEnvelopeTarget>,
) -> bool {
    exists|a: Result<PowerEnvelopeTarget, HpdError>| #[trigger]
        call_ensures(P::get_target, (p,), a) && r == told(a)
}

fn ask_target<P: PowerEnvelope + ?Sized>(p: &P) -> (r: Option<PowerEnvelopeTarget>)
    ensures
        target_returned(p, r),
{
    let a = p.get_target();
    let ghost read = a;
    assert(call_ensures(P::get_target, (p,), read));
    keep_told(a)
}

/// Whether the hardware told this platform profile.
pub open spec fn profile_told<B: HwBackend + ?Sized>(b: &B, r: Option<ProfileName>) -> bool {
    exists|cap: Option<&dyn PlatformProfile>| #[trigger]
        call_ensures(B::profile, (b,), cap) && match cap {
            None => r is None,
            Some(p) => profile_returned(p, r),
        }
}

/// Whether the profile control told this profile.
pub open spec fn profile_returned<P: PlatformProfile + ?Sized>(
    p: &P,
    r: Option<ProfileName>,
) -> bool {
    exists|a: Result<ProfileName, HpdError>| #[trigger]
        call_ensures(P::get_active_profile, (p,), a) && r == told(a)
}

fn ask_profile<P: PlatformProfile + ?Sized>(p: &P) -> (r: Option<ProfileName>)
    ensures
        profile_returned(p, r),
{
    let a = p.get_active_profile();
    let ghost read = a;
    assert(call_ensures(P::get_active_profile, (p,), read));
    keep_told(a)
}

/// Whether the hardware told this charge limit.
pub open spec fn threshold_told<B: HwBackend + ?Sized>(b: &B, r: Option<u8>) -> bool {
    exists|cap: Option<&dyn ChargeControl>| #[trigger]
        call_ensures(B::charge, (b,), cap) && match cap {
            None => r is None,
            Some(c) => threshold_returned(c, r),
        }
}

/// Whether the charge control told this limit.
pub open spec fn threshold_returned<C: ChargeControl + ?Sized>(c: &C, r: Option<u8>) -> bool {
    exists|a: Result<u8, HpdError>| #[trigger]
        call_ensures(C::get_end_threshold, (c,), a) && r == told(a)
}

fn ask_threshold<C: ChargeControl + ?Sized>(c: &C) -> (r: Option<u8>)
    ensures
        threshold_returned(c, r),
{
    let a = c.get_end_threshold();
    let ghost read = a;
    assert(call_ensures(C::get_end_threshold, (c,), read));
    keep_told(a)
}

fn read_target<B: HwBackend + ?Sized>(b: &B) -> (r: Option<PowerEnvelopeTarget>)
    ensures
        target_told(b, r),
{
    let cap = b.power();
    ask_target(cap.0)
}

fn read_profile<B: HwBackend + ?Sized>(b: &B) -> (r: Option<ProfileName>)
    ensures
        profile_told(b, r),
{
    match b.profile() {
        None => None,
        Some(p) => ask_profile(p),
    }
}

fn read_threshold<B: HwBackend + ?Sized>(b: &B) -> (r: Option<u8>)
    ensures
        threshold_told(b, r),
{
    match b.charge() {
        None => None,
        Some(c) => ask_threshold(c),
    }
}

/// Whether `r` is the state that the daemon starts from: the kept one where
/// there is one, with the charger as it is found; else that of a first start.
pub open spec fn booted<B: HwBackend>(
    b: &B,
    kept: Option<ProfileState>,
    limits: PowerEnvelopeLimits,
    config: DaemonConfig,
    r: ProfileState,
) -> bool {
    exists|charger: Option<Result<bool, HpdError>>| #[trigger]
        executor::charger_gave(b, charger) && match kept {
            Some(state) => r == intended(
                ProfileState { is_ac_connected: plugged(charger), ..state },
                config,
            ),
            None => exists|
                target: Option<PowerEnvelopeTarget>,
                profile: Option<ProfileName>,
                threshold: Option<u8>,
            |
                target_told(b, target) && profile_told(b, profile) && threshold_told(b, threshold)
                    && r == intended(
                    #[trigger] first_state(
                        target,
                        profile,
                        threshold,
                        plugged(charger),
                        limits,
                        config,
                    ),
                    config,
                ),
        }
}

/// The state that the daemon starts from.
pub fn boot_state<B: HwBackend>(
    b: &B,
    kept: Option<ProfileState>,
    limits: &PowerEnvelopeLimits,
    config: &DaemonConfig,
) -> (r: ProfileState)
    ensures
        booted(b, kept, *limits, *config, r),
{
    let charger = executor::read_charger(b);
    assert(executor::charger_gave(b, charger));
    let is_plugged = match charger {
        Some(Ok(is_plugged)) => is_plugged,
        _ => false,
    };
    match kept {
        Some(state) => {
            let mut state = state;
            state.is_ac_connected = is_plugged;
            intend(state, config)
        },
        None => {
            let target = read_target(b);
            let profile = read_profile(b);
            let threshold = read_threshold(b);
            let ghost told_profile = profile;
            let state = make_first_state(target, profile, threshold, is_plugged, limits, config);
            assert(state == first_state(
                target,
                told_profile,
                threshold,
                is_plugged,
                *limits,
                *config,
            ));
            intend(state, config)
        },
    }
}

/// What the daemon starts with.
#[derive(Debug)]
pub struct Start {
    /// The limits of the hardware.
    pub limits: PowerEnvelopeLimits,
    /// The state.
    pub state: ProfileState,
    /// The first transition.
    pub first: Transition,
}

/// Whether `r` is how the daemon starts, with the limits of the hardware read as
/// `limits`. Without limits it does not start, and the error is the one that the
/// read gave. Otherwise the first thing it does is to put the state in force.
pub open spec fn started<B: HwBackend>(
    b: &B,
    limits: Result<PowerEnvelopeLimits, HpdError>,
    kept: Option<ProfileState>,
    config: DaemonConfig,
    r: Result<Start, HpdError>,
) -> bool {
    match limits {
        Err(e) => r == Err::<Start, HpdError>(e),
        Ok(limits) => r matches Ok(start) && start.limits == limits && booted(
            b,
            kept,
            limits,
            config,
            start.state,
        ) && start.first == Transition::SystemResumed,
    }
}

/// How the daemon starts, with the limits of the hardware read as `limits`.
pub fn start<B: HwBackend>(
    b: &B,
    limits: Result<PowerEnvelopeLimits, HpdError>,
    kept: Option<ProfileState>,
    config: &DaemonConfig,
) -> (r: Result<Start, HpdError>)
    ensures
        started(b, limits, kept, *config, r),
{
    match limits {
        Err(e) => Err(e),
        Ok(limits) => {
            let state = boot_state(b, kept, &limits, config);
            Ok(Start { limits, state, first: Transition::SystemResumed })
        },
    }
}

/// A first start never touches the GPU clock, and always cools by the curve that
/// is configured.
pub proof fn first_start_leaves_the_gpu_clock_alone(
    target: Option<PowerEnvelopeTarget>,
    profile: Option<ProfileName>,
    threshold: Option<u8>,
    is_plugged: bool,
    limits: PowerEnvelopeLimits,
    config: DaemonConfig,
)
    ensures
        ({
            let state = intended(
                first_state(target, profile, threshold, is_plugged, limits, config),
                config,
            );
            &&& state.active_gpu_clock is None
            &&& !state.gpu_follows_tdp
            &&& state.active_profile == config.default_platform_profile
            &&& config.default_fan_curve matches Some(preset) ==> state.active_fan_curve == Some(
                FanCurveSelection::Preset(preset),
            )
        }),
{
}

/// A first start takes what the hardware tells, each lever its own. What it does not tell is
/// the lowest sustained limit on every rail and the configured charge limit. The fans
/// follow the power, nothing is kept for later, and the lock is as configured.
pub proof fn first_start_takes_what_the_hardware_tells(
    target: Option<PowerEnvelopeTarget>,
    profile: Option<ProfileName>,
    threshold: Option<u8>,
    is_plugged: bool,
    limits: PowerEnvelopeLimits,
    config: DaemonConfig,
    r: ProfileState,
)
    requires
        call_ensures(
            make_first_state,
            (target, profile, threshold, is_plugged, &limits, &config),
            r,
        ),
    ensures
        target matches Some(t) ==> r.power_target == t,
        target is None ==> r.power_target.spl == limits.spl_min && r.power_target.sppt
            == limits.spl_min && r.power_target.fppt == Some(limits.spl_min),
        profile matches Some(p) ==> r.active_profile == p,
        profile is None ==> r.active_profile is Balanced,
        threshold matches Some(t) ==> r.charge_end_threshold == t,
        threshold is None ==> r.charge_end_threshold == config.default_charge_threshold,
        r.fan_follows_tdp,
        r.active_fan_curve is None,
        r.active_gpu_clock is None && !r.gpu_follows_tdp,
        r.last_dc_state is None,
        r.ac_max_performance == config.default_ac_max_performance,
        r.is_ac_connected == is_plugged,
{
}

/// At every start the platform profile is the configured one, and the fans run what was
/// kept, else the configured level, else what the firmware runs. Nothing else moves.
pub proof fn a_start_sets_profile_and_fans_alone(
    state: ProfileState,
    config: DaemonConfig,
    r: ProfileState,
)
    requires
        call_ensures(intend, (state, &config), r),
    ensures
        r == (ProfileState {
            active_profile: config.default_platform_profile,
            active_fan_curve: r.active_fan_curve,
            ..state
        }),
        state.active_fan_curve is Some ==> r.active_fan_curve == state.active_fan_curve,
        state.active_fan_curve is None ==> (match config.default_fan_curve {
            Some(level) => r.active_fan_curve == Some(FanCurveSelection::Preset(level)),
            None => r.active_fan_curve is None,
        }),
{
}

/// A state that was kept is the one that the daemon starts from: power, charge limit, clock,
/// what follows, the lock and what is kept for later are as they were; the charger is as
/// it is found.
pub proof fn a_kept_state_is_started_from<B: HwBackend>(
    b: &B,
    kept: ProfileState,
    limits: PowerEnvelopeLimits,
    config: DaemonConfig,
    r: ProfileState,
)
    requires
        call_ensures(boot_state::<B>, (b, Some(kept), &limits, &config), r),
    ensures
        r == (ProfileState {
            is_ac_connected: r.is_ac_connected,
            active_profile: config.default_platform_profile,
            active_fan_curve: r.active_fan_curve,
            ..kept
        }),
        kept.active_fan_curve is Some ==> r.active_fan_curve == kept.active_fan_curve,
        exists|charger: Option<Result<bool, HpdError>>| #[trigger]
            executor::charger_gave(b, charger) && (r.is_ac_connected <==> charger == Some(
                Ok::<bool, HpdError>(true),
            )),
{
    let charger = choose|charger: Option<Result<bool, HpdError>>| #[trigger]
        executor::charger_gave(b, charger) && r == intended(
            ProfileState { is_ac_connected: plugged(charger), ..kept },
            config,
        );
    assert(executor::charger_gave(b, charger));
}

/// The daemon does not start without the limits of the hardware, and the first thing that
/// it does is to put its state in force.
pub proof fn a_start_needs_the_limits<B: HwBackend>(
    b: &B,
    limits: Result<PowerEnvelopeLimits, HpdError>,
    kept: Option<ProfileState>,
    config: DaemonConfig,
    r: Result<Start, HpdError>,
)
    requires
        call_ensures(start::<B>, (b, limits, kept, &config), r),
    ensures
        limits matches Err(e) ==> r == Err::<Start, HpdError>(e),
        limits matches Ok(read) ==> (r matches Ok(s) && s.limits == read && s.first
            is SystemResumed),
{
}

/// Help is given wherever it is asked for, the version wherever that is asked for and help
/// is not; the daemon runs only without arguments.
pub proof fn arguments_are_understood(args: Vec<String>, r: Invocation)
    requires
        call_ensures(interpret_args, (&args,), r),
    ensures
        ({
            let words = text::texts(args@);
            let help = words.contains("-h"@) || words.contains("--help"@);
            let version = words.contains("-V"@) || words.contains("--version"@);
            &&& r is Help <==> help
            &&& r is Version <==> version && !help
            &&& r is Run <==> args@.len() == 0
            &&& r matches Invocation::Unknown(word) ==> word == args@[0]
        }),
{
    let words = text::texts(args@);
    if args@.len() == 0 {
        assert(words.len() == 0);
    }
}

/// The files lie in the directory that the service manager names; the state file is
/// otherwise where the configuration has it.
pub proof fn files_lie_in_the_named_directory(
    dir: &str,
    config: DaemonConfig,
    c: String,
    s: String,
    own: String,
)
    requires
        call_ensures(config_file, (Some(dir),), c),
        call_ensures(state_file, (Some(dir), &config), s),
        call_ensures(state_file, (None::<&str>, &config), own),
    ensures
        text::has_prefix(c@, dir@) && text::has_suffix(c@, "config.toml"@),
        text::has_prefix(s@, dir@) && text::has_suffix(s@, "state.toml"@),
        own@ == config.state_path@,
        dir@.len() > 0 ==> text::has_suffix(c@, "/config.toml"@) || text::has_suffix(dir@, "/"@),
{
    reveal_strlit("/");
    reveal_strlit("config.toml");
    reveal_strlit("state.toml");
    reveal_strlit("/config.toml");
    assert(c@.subrange(0, dir@.len() as int) =~= dir@);
    assert(s@.subrange(0, dir@.len() as int) =~= dir@);
    assert(c@.skip(c@.len() - "config.toml"@.len()) =~= "config.toml"@);
    assert(s@.skip(s@.len() - "state.toml"@.len()) =~= "state.toml"@);
    if dir@.len() > 0 && !text::has_suffix(dir@, "/"@) {
        assert(c@.skip(c@.len() - "/config.toml"@.len()) =~= "/config.toml"@);
    }
}

} // verus!
