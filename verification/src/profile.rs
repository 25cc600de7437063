//! Profile names, TDP presets and the tuning of the daemon.

use crate::single;
use crate::single::Single;
use crate::text::{same, to_lowercase, trim};
use crate::text;
use vstd::prelude::*;

verus! {

/// A platform profile.
#[derive(Debug)]
pub enum ProfileName {
    PowerSaver,
    Balanced,
    Performance,
    /// A profile of the vendor's own.
    Custom(String),
}

impl ProfileName {
    /// The name that clients know the profile by.
    pub open spec fn name(self) -> Seq<char> {
        match self {
            ProfileName::PowerSaver => "power-saver"@,
            ProfileName::Balanced => "balanced"@,
            ProfileName::Performance => "performance"@,
            ProfileName::Custom(name) => name@,
        }
    }

    /// Whether two profiles are the same one.
    pub open spec fn same(self, other: ProfileName) -> bool {
        match (self, other) {
            (ProfileName::Custom(a), ProfileName::Custom(b)) => a@ == b@,
            (ProfileName::Custom(_), _) => false,
            (_, ProfileName::Custom(_)) => false,
            _ => self == other,
        }
    }

    /// Whether the profile is what the name `s` stands for: the known names are read
    /// without regard to letter case, any other is kept as it is.
    pub open spec fn is_named(self, s: Seq<char>) -> bool {
        let name = text::folded(s);
        if name == "powersaver"@ || name == "power-saver"@ || name == "quiet"@ || name
            == "low-power"@ {
            self is PowerSaver
        } else if name == "balanced"@ {
            self is Balanced
        } else if name == "performance"@ {
            self is Performance
        } else {
            self matches ProfileName::Custom(own) && own@ == s
        }
    }

    /// The name that clients know the profile by.
    pub fn to_string(&self) -> (r: String)
        ensures
            r@ == self.name(),
    {
        match self {
            ProfileName::PowerSaver => "power-saver".to_owned(),
            ProfileName::Balanced => "balanced".to_owned(),
            ProfileName::Performance => "performance".to_owned(),
            ProfileName::Custom(name) => name.clone(),
        }
    }

    /// The profile that a name stands for. The known names are read without regard
    /// to letter case, ACPI's names for the power saver among them; an unknown name
    /// is the vendor's own, kept as it is; a blank one is refused.
    pub fn from_str(s: &str) -> (r: Result<Self, String>)
        ensures
            text::trimmed(s@).len() == 0 ==> r is Err && r->Err_0@ == "profile name cannot be empty"@,
            text::trimmed(s@).len() > 0 ==> r is Ok && r->Ok_0.is_named(s@),
    {
        if trim(s).is_empty() {
            return Err("profile name cannot be empty".to_owned());
        }
        let name = to_lowercase(s);
        let n = name.as_str();
        if same(n, "powersaver") || same(n, "power-saver") || same(n, "quiet") || same(
            n,
            "low-power",
        ) {
            Ok(ProfileName::PowerSaver)
        } else if same(n, "balanced") {
            Ok(ProfileName::Balanced)
        } else if same(n, "performance") {
            Ok(ProfileName::Performance)
        } else {
            Ok(ProfileName::Custom(s.to_owned()))
        }
    }
}

impl core::str::FromStr for ProfileName {
    type Err = String;

    fn from_str(s: &str) -> (r: Result<Self, String>)
        ensures
            text::trimmed(s@).len() == 0 ==> r is Err && r->Err_0@ == "profile name cannot be empty"@,
            text::trimmed(s@).len() > 0 ==> r is Ok && r->Ok_0.is_named(s@),
    {
        ProfileName::from_str(s)
    }
}

impl Clone for ProfileName {
    fn clone(&self) -> (r: Self)
        ensures
            r == *self,
    {
        match self {
            ProfileName::PowerSaver => ProfileName::PowerSaver,
            ProfileName::Balanced => ProfileName::Balanced,
            ProfileName::Performance => ProfileName::Performance,
            ProfileName::Custom(name) => ProfileName::Custom(name.clone()),
        }
    }
}

impl PartialEq for ProfileName {
    fn eq(&self, other: &Self) -> (r: bool) {
        match (self, other) {
            (ProfileName::PowerSaver, ProfileName::PowerSaver) => true,
            (ProfileName::Balanced, ProfileName::Balanced) => true,
            (ProfileName::Performance, ProfileName::Performance) => true,
            (ProfileName::Custom(a), ProfileName::Custom(b)) => *a == *b,
            _ => false,
        }
    }
}

impl Eq for ProfileName {

}

impl vstd::std_specs::cmp::PartialEqSpecImpl for ProfileName {
    open spec fn obeys_eq_spec() -> bool {
        true
    }

    open spec fn eq_spec(&self, other: &Self) -> bool {
        self.same(*other)
    }
}

/// A shortcut to a sustained power limit: the lowest, the middle or the highest.
#[derive(Debug, Clone, Copy, PartialEq, Eq, Structural)]
pub enum TdpPreset {
    Eco,
    Balanced,
    Max,
}

impl TdpPreset {
    /// The name of the preset.
    pub open spec fn name(self) -> Seq<char> {
        match self {
            TdpPreset::Eco => "eco"@,
            TdpPreset::Balanced => "balanced"@,
            TdpPreset::Max => "max"@,
        }
    }

    /// The preset that a name stands for, without regard to letter case.
    pub open spec fn named(s: Seq<char>) -> Option<TdpPreset> {
        let name = text::folded(s);
        if name == "eco"@ {
            Some(TdpPreset::Eco)
        } else if name == "balanced"@ {
            Some(TdpPreset::Balanced)
        } else if name == "max"@ {
            Some(TdpPreset::Max)
        } else {
            None
        }
    }

    /// The name of the preset.
    pub fn to_string(&self) -> (r: String)
        ensures
            r@ == self.name(),
    {
        match self {
            TdpPreset::Eco => "eco".to_owned(),
            TdpPreset::Balanced => "balanced".to_owned(),
            TdpPreset::Max => "max".to_owned(),
        }
    }

    /// The preset that a name stands for, without regard to letter case.
    pub fn from_str(s: &str) -> (r: Result<Self, String>)
        ensures
            match Self::named(s@) {
                Some(preset) => r == Ok::<Self, String>(preset),
                None => r is Err && r->Err_0@ == unknown_preset(s@),
            },
    {
        let name = to_lowercase(s);
        let n = name.as_str();
        if same(n, "eco") {
            Ok(TdpPreset::Eco)
        } else if same(n, "balanced") {
            Ok(TdpPreset::Balanced)
        } else if same(n, "max") {
            Ok(TdpPreset::Max)
        } else {
            let mut text = "unknown TDP preset '".to_owned();
            text.append(n);
            text.append("': use one of eco, balanced, max");
            Err(text)
        }
    }
}

/// Why a TDP preset is refused.
pub open spec fn unknown_preset(s: Seq<char>) -> Seq<char> {
    "unknown TDP preset '"@ + text::folded(s) + "': use one of eco, balanced, max"@
}

impl core::str::FromStr for TdpPreset {
    type Err = String;

    fn from_str(s: &str) -> (r: Result<Self, String>)
        ensures
            match Self::named(s@) {
                Some(preset) => r == Ok::<Self, String>(preset),
                None => r is Err && r->Err_0@ == unknown_preset(s@),
            },
    {
        TdpPreset::from_str(s)
    }
}

// ---------------------------------------------------------------------------
// Tuning
// ---------------------------------------------------------------------------

/// The bits of 0.0.
pub const ZERO: u32 = 0;

/// The bits of 1.0.
pub const ONE: u32 = 0x3f80_0000;

/// The bits of 0.33, below which cooling is silent.
pub const DEFAULT_LOW_FRAC: u32 = 0x3ea8_f5c3;

/// The bits of 0.67, from which cooling is aggressive.
pub const DEFAULT_HIGH_FRAC: u32 = 0x3f2b_851f;

/// The bits of 1.15, the slow boost limit over the sustained one.
pub const DEFAULT_SPPT_FACTOR: u32 = 0x3f93_3333;

/// The bits of 1.25, the fast boost limit over the sustained one.
pub const DEFAULT_FPPT_FACTOR: u32 = 0x3fa0_0000;

/// The bits of 0.55, the GPU clock share of the silent tier.
pub const DEFAULT_SILENT_MAX_FRAC: u32 = 0x3f0c_cccd;

/// The bits of 0.75, the GPU clock share of the balanced tier.
pub const DEFAULT_BALANCED_MAX_FRAC: u32 = 0x3f40_0000;

/// The bits of 1.0, the GPU clock share of the aggressive tier.
pub const DEFAULT_AGGRESSIVE_MAX_FRAC: u32 = 0x3f80_0000;

/// Where in the TDP range the cooling level changes: silent below `low_frac`,
/// aggressive from `high_frac` on, balanced between.
#[derive(Debug, Clone, Copy)]
pub struct ProfileThresholds {
    pub low_frac: Single,
    pub high_frac: Single,
}

/// The share of the GPU clock range that each tier may use.
#[derive(Debug, Clone, Copy)]
pub struct GpuClockFractions {
    pub silent_max_frac: Single,
    pub balanced_max_frac: Single,
    pub aggressive_max_frac: Single,
}

/// The part of the configuration that may change while the daemon runs: the
/// cooling thresholds, the factors from the sustained limit to the boost
/// limits, and the GPU clock shares.
#[derive(Debug, Clone, Copy)]
pub struct RuntimeConfig {
    pub profile_thresholds: ProfileThresholds,
    pub sppt_factor: Single,
    pub fppt_factor: Single,
    pub gpu_clock_fractions: GpuClockFractions,
}

impl ProfileThresholds {
    /// Whether every number equals that of `other`, as numbers.
    pub open spec fn equals(self, other: ProfileThresholds) -> bool {
        self.low_frac.equals(other.low_frac) && self.high_frac.equals(other.high_frac)
    }
}

impl PartialEq for ProfileThresholds {
    fn eq(&self, other: &Self) -> (r: bool) {
        self.low_frac == other.low_frac && self.high_frac == other.high_frac
    }
}

impl vstd::std_specs::cmp::PartialEqSpecImpl for ProfileThresholds {
    open spec fn obeys_eq_spec() -> bool {
        true
    }

    open spec fn eq_spec(&self, other: &Self) -> bool {
        self.equals(*other)
    }
}

impl GpuClockFractions {
    /// Whether every number equals that of `other`, as numbers.
    pub open spec fn equals(self, other: GpuClockFractions) -> bool {
        self.silent_max_frac.equals(other.silent_max_frac) && self.balanced_max_frac.equals(other.balanced_max_frac) && self.aggressive_max_frac.equals(other.aggressive_max_frac)
    }
}

impl PartialEq for GpuClockFractions {
    fn eq(&self, other: &Self) -> (r: bool) {
        self.silent_max_frac == other.silent_max_frac && self.balanced_max_frac == other.balanced_max_frac && self.aggressive_max_frac == other.aggressive_max_frac
    }
}

impl vstd::std_specs::cmp::PartialEqSpecImpl for GpuClockFractions {
    open spec fn obeys_eq_spec() -> bool {
        true
    }

    open spec fn eq_spec(&self, other: &Self) -> bool {
        self.equals(*other)
    }
}

impl RuntimeConfig {
    /// Whether every number equals that of `other`, as numbers.
    pub open spec fn equals(self, other: RuntimeConfig) -> bool {
        self.profile_thresholds.equals(other.profile_thresholds) && self.sppt_factor.equals(other.sppt_factor) && self.fppt_factor.equals(other.fppt_factor) && self.gpu_clock_fractions.equals(other.gpu_clock_fractions)
    }
}

impl PartialEq for RuntimeConfig {
    fn eq(&self, other: &Self) -> (r: bool) {
        self.profile_thresholds == other.profile_thresholds && self.sppt_factor == other.sppt_factor && self.fppt_factor == other.fppt_factor && self.gpu_clock_fractions == other.gpu_clock_fractions
    }
}

impl vstd::std_specs::cmp::PartialEqSpecImpl for RuntimeConfig {
    open spec fn obeys_eq_spec() -> bool {
        true
    }

    open spec fn eq_spec(&self, other: &Self) -> bool {
        self.equals(*other)
    }
}

impl GpuClockFractions {
    /// The shares of a fresh install.
    pub open spec fn standard() -> GpuClockFractions {
        GpuClockFractions {
            silent_max_frac: Single { bits: DEFAULT_SILENT_MAX_FRAC },
            balanced_max_frac: Single { bits: DEFAULT_BALANCED_MAX_FRAC },
            aggressive_max_frac: Single { bits: DEFAULT_AGGRESSIVE_MAX_FRAC },
        }
    }
}

impl ProfileThresholds {
    /// The thresholds of a fresh install.
    pub open spec fn standard() -> ProfileThresholds {
        ProfileThresholds {
            low_frac: Single { bits: DEFAULT_LOW_FRAC },
            high_frac: Single { bits: DEFAULT_HIGH_FRAC },
        }
    }

    /// The thresholds clamped to the unit interval; the defaults where one is not
    /// finite, or where they are out of order.
    pub open spec fn mended(self) -> ProfileThresholds {
        let low_frac = clamped(self.low_frac);
        let high_frac = clamped(self.high_frac);
        if !self.low_frac.finite() || !self.high_frac.finite() || high_frac.below(low_frac) {
            ProfileThresholds::standard()
        } else {
            ProfileThresholds { low_frac, high_frac }
        }
    }

    /// The thresholds clamped to the unit interval; the defaults where one is not
    /// finite, or where they are out of order.
    pub fn sanitized(self) -> (r: Self)
        ensures
            r == self.mended(),
    {
        if !self.low_frac.is_finite() || !self.high_frac.is_finite() {
            return ProfileThresholds::default();
        }
        let low_frac = clamp_to_unit(self.low_frac);
        let high_frac = clamp_to_unit(self.high_frac);
        if high_frac.lt(low_frac) {
            return ProfileThresholds::default();
        }
        ProfileThresholds { low_frac, high_frac }
    }
}

/// `f`, or the end of the unit interval that it lies beyond.
pub open spec fn clamped(f: Single) -> Single {
    if f.below(Single { bits: ZERO }) {
        Single { bits: ZERO }
    } else if (Single { bits: ONE }).below(f) {
        Single { bits: ONE }
    } else {
        f
    }
}

fn clamp_to_unit(f: Single) -> (r: Single)
    ensures
        r == clamped(f),
{
    if f.lt(Single { bits: ZERO }) {
        Single { bits: ZERO }
    } else if (Single { bits: ONE }).lt(f) {
        Single { bits: ONE }
    } else {
        f
    }
}

/// Whether `f` may scale a power limit: a finite number, and at least one.
pub open spec fn valid_factor(f: Single) -> bool {
    f.finite() && !f.below(Single { bits: ONE })
}

fn is_valid_factor(f: Single) -> (r: bool)
    ensures
        r == valid_factor(f),
{
    f.is_finite() && !f.lt(Single { bits: ONE })
}

impl RuntimeConfig {
    /// The tuning of a fresh install.
    pub open spec fn standard() -> RuntimeConfig {
        RuntimeConfig {
            profile_thresholds: ProfileThresholds::standard(),
            sppt_factor: Single { bits: DEFAULT_SPPT_FACTOR },
            fppt_factor: Single { bits: DEFAULT_FPPT_FACTOR },
            gpu_clock_fractions: GpuClockFractions::standard(),
        }
    }

    /// The tuning with its thresholds mended, and the default in place of a factor
    /// that would lower a limit.
    pub open spec fn mended(self) -> RuntimeConfig {
        RuntimeConfig {
            profile_thresholds: self.profile_thresholds.mended(),
            sppt_factor: if valid_factor(self.sppt_factor) {
                self.sppt_factor
            } else {
                RuntimeConfig::standard().sppt_factor
            },
            fppt_factor: if valid_factor(self.fppt_factor) {
                self.fppt_factor
            } else {
                RuntimeConfig::standard().fppt_factor
            },
            gpu_clock_fractions: self.gpu_clock_fractions,
        }
    }

    /// The tuning with its thresholds mended, and the default in place of a factor
    /// that would lower a limit.
    pub fn sanitized(self) -> (r: Self)
        ensures
            r == self.mended(),
    {
        RuntimeConfig {
            profile_thresholds: self.profile_thresholds.sanitized(),
            sppt_factor: if is_valid_factor(self.sppt_factor) {
                self.sppt_factor
            } else {
                Single { bits: DEFAULT_SPPT_FACTOR }
            },
            fppt_factor: if is_valid_factor(self.fppt_factor) {
                self.fppt_factor
            } else {
                Single { bits: DEFAULT_FPPT_FACTOR }
            },
            gpu_clock_fractions: self.gpu_clock_fractions,
        }
    }
}

impl Default for GpuClockFractions {
    fn default() -> (r: Self)
        ensures
            r == GpuClockFractions::standard(),
    {
        GpuClockFractions {
            silent_max_frac: Single { bits: DEFAULT_SILENT_MAX_FRAC },
            balanced_max_frac: Single { bits: DEFAULT_BALANCED_MAX_FRAC },
            aggressive_max_frac: Single { bits: DEFAULT_AGGRESSIVE_MAX_FRAC },
        }
    }
}

impl Default for ProfileThresholds {
    fn default() -> (r: Self)
        ensures
            r == ProfileThresholds::standard(),
    {
        ProfileThresholds {
            low_frac: Single { bits: DEFAULT_LOW_FRAC },
            high_frac: Single { bits: DEFAULT_HIGH_FRAC },
        }
    }
}

impl Default for RuntimeConfig {
    fn default() -> (r: Self)
        ensures
            r == RuntimeConfig::standard(),
    {
        RuntimeConfig {
            profile_thresholds: ProfileThresholds::default(),
            sppt_factor: Single { bits: DEFAULT_SPPT_FACTOR },
            fppt_factor: Single { bits: DEFAULT_FPPT_FACTOR },
            gpu_clock_fractions: GpuClockFractions::default(),
        }
    }
}

// ---------------------------------------------------------------------------
// Laws
// ---------------------------------------------------------------------------

/// Whether a profile is read back from its own name: every profile but one of
/// the vendor's own whose name is blank, or is a known name but for letter case.
pub open spec fn readable(profile: ProfileName) -> bool {
    profile matches ProfileName::Custom(name) ==> {
        let known = text::folded(name@);
        &&& text::trimmed(name@).len() > 0
        &&& known != "powersaver"@
        &&& known != "power-saver"@
        &&& known != "quiet"@
        &&& known != "low-power"@
        &&& known != "balanced"@
        &&& known != "performance"@
    }
}

/// A profile is read back from its own name.
pub proof fn profile_name_round_trip(profile: ProfileName, other: ProfileName)
    requires
        readable(profile),
        other.is_named(profile.name()),
    ensures
        text::trimmed(profile.name()).len() > 0,
        other.same(profile),
{
    lemma_plain("power-saver"@);
    lemma_plain("balanced"@);
    lemma_plain("performance"@);
}

/// Every preset is read back from its own name.
pub proof fn preset_name_round_trip(preset: TdpPreset)
    ensures
        TdpPreset::named(preset.name()) == Some(preset),
{
    lemma_plain("eco"@);
    lemma_plain("balanced"@);
    lemma_plain("max"@);
}

proof fn lemma_plain(name: Seq<char>)
    requires
        name == "power-saver"@ || name == "balanced"@ || name == "performance"@ || name == "eco"@
            || name == "max"@,
    ensures
        text::folded(name) == name,
        text::trimmed(name).len() > 0,
        name == "balanced"@ ==> name != "powersaver"@ && name != "power-saver"@ && name != "quiet"@
            && name != "low-power"@ && name != "eco"@ && name != "max"@,
        name == "performance"@ ==> name != "powersaver"@ && name != "power-saver"@ && name
            != "quiet"@ && name != "low-power"@ && name != "balanced"@,
        name == "max"@ ==> name != "eco"@,
{
    reveal_strlit("powersaver");
    reveal_strlit("power-saver");
    reveal_strlit("quiet");
    reveal_strlit("low-power");
    reveal_strlit("balanced");
    reveal_strlit("performance");
    reveal_strlit("eco");
    reveal_strlit("max");
    assert(text::ascii_lower(name) =~= name);
    assert(vstd::utf8::is_ascii_chars(name));
    assert(text::trimmed(name) == name);
    assert("performance"@[1] == 'e');
    assert("power-saver"@[1] == 'o');
    assert("eco"@[0] == 'e');
    assert("max"@[0] == 'm');
}

proof fn lemma_numbers()
    ensures
        (Single { bits: ZERO }).value() == 0,
        (Single { bits: ZERO }).value() < (Single { bits: DEFAULT_LOW_FRAC }).value() < (Single {
            bits: DEFAULT_HIGH_FRAC,
        }).value() < (Single { bits: ONE }).value() < (Single {
            bits: DEFAULT_SPPT_FACTOR,
        }).value() < (Single { bits: DEFAULT_FPPT_FACTOR }).value(),
        (Single { bits: ZERO }).finite() && (Single { bits: DEFAULT_LOW_FRAC }).finite() && (Single {
            bits: DEFAULT_HIGH_FRAC,
        }).finite() && (Single { bits: ONE }).finite() && (Single {
            bits: DEFAULT_SPPT_FACTOR,
        }).finite() && (Single { bits: DEFAULT_FPPT_FACTOR }).finite(),
{
    single::lemma_units_ordered(Single { bits: ZERO }, Single { bits: DEFAULT_LOW_FRAC });
    single::lemma_units_ordered(
        Single { bits: DEFAULT_LOW_FRAC },
        Single { bits: DEFAULT_HIGH_FRAC },
    );
    single::lemma_units_ordered(Single { bits: DEFAULT_HIGH_FRAC }, Single { bits: ONE });
    single::lemma_units_ordered(Single { bits: ONE }, Single { bits: DEFAULT_SPPT_FACTOR });
    single::lemma_units_ordered(
        Single { bits: DEFAULT_SPPT_FACTOR },
        Single { bits: DEFAULT_FPPT_FACTOR },
    );
    let zero = Single { bits: ZERO };
    assert(zero.significand() == 0);
    assert(zero.units() == 0) by (nonlinear_arith)
        requires
            zero.significand() == 0,
            zero.units() == zero.significand() * vstd::arithmetic::power2::pow2(zero.shift()),
    ;
}

/// Mended tuning needs no more mending: both thresholds lie in the unit
/// interval and in order, and neither factor lowers a limit.
pub proof fn mending_is_idempotent(config: RuntimeConfig)
    ensures
        config.mended().mended() == config.mended(),
        ({
            let mended = config.mended();
            let low = mended.profile_thresholds.low_frac;
            let high = mended.profile_thresholds.high_frac;
            &&& low.finite() && high.finite()
            &&& (Single { bits: ZERO }).value() <= low.value() <= high.value() <= (Single {
                bits: ONE,
            }).value()
            &&& valid_factor(mended.sppt_factor)
            &&& valid_factor(mended.fppt_factor)
        }),
{
    lemma_numbers();
}

/// The standard tuning needs no mending.
pub proof fn standard_tuning_needs_no_mending()
    ensures
        RuntimeConfig::standard().mended() == RuntimeConfig::standard(),
{
    lemma_numbers();
}

/// A name is the power saver's, the balanced or the performance profile's by its
/// words in lower case; any other is kept as it is; only a blank one is refused.
pub proof fn profile_names_are_known_by_their_words(s: &str, r: Result<ProfileName, String>)
    requires
        call_ensures(ProfileName::from_str, (s,), r),
    ensures
        r is Err <==> text::trimmed(s@).len() == 0,
        r matches Ok(profile) ==> goes_by(profile, s@),
{
}

/// Whether a profile goes by a name.
pub open spec fn goes_by(profile: ProfileName, name: Seq<char>) -> bool {
    let word = text::folded(name);
    match profile {
        ProfileName::PowerSaver => word == "power-saver"@ || word == "powersaver"@ || word
            == "quiet"@ || word == "low-power"@,
        ProfileName::Balanced => word == "balanced"@,
        ProfileName::Performance => word == "performance"@,
        ProfileName::Custom(own) => own@ == name && word != "balanced"@ && word != "performance"@
            && word != "power-saver"@ && word != "powersaver"@ && word != "quiet"@ && word
            != "low-power"@,
    }
}

/// A preset goes by its own name in lower case, and every other name is refused.
pub proof fn presets_are_known_by_their_words(s: &str, r: Result<TdpPreset, String>)
    requires
        call_ensures(TdpPreset::from_str, (s,), r),
    ensures
        ({
            let word = text::folded(s@);
            &&& r is Err <==> word != "eco"@ && word != "balanced"@ && word != "max"@
            &&& r matches Ok(preset) ==> word == (match preset {
                TdpPreset::Eco => "eco"@,
                TdpPreset::Balanced => "balanced"@,
                TdpPreset::Max => "max"@,
            })
        }),
{
}

/// What is mended is mended one by one: a factor that is finite and at least one stays,
/// any other is the default of its own rail; thresholds in order within the unit
/// interval stay; the shares of the GPU clock are left alone.
pub proof fn mending_spares_what_is_sound(config: RuntimeConfig, r: RuntimeConfig)
    requires
        call_ensures(RuntimeConfig::sanitized, (config,), r),
    ensures
        ({
            let one = (Single { bits: ONE }).value();
            let (low, high) = (
                config.profile_thresholds.low_frac,
                config.profile_thresholds.high_frac,
            );
            &&& config.sppt_factor.finite() && config.sppt_factor.value() >= one
                ==> r.sppt_factor == config.sppt_factor
            &&& !(config.sppt_factor.finite() && config.sppt_factor.value() >= one)
                ==> r.sppt_factor.bits == DEFAULT_SPPT_FACTOR
            &&& config.fppt_factor.finite() && config.fppt_factor.value() >= one
                ==> r.fppt_factor == config.fppt_factor
            &&& !(config.fppt_factor.finite() && config.fppt_factor.value() >= one)
                ==> r.fppt_factor.bits == DEFAULT_FPPT_FACTOR
            &&& low.finite() && high.finite() && 0 <= low.value() <= high.value() <= one
                ==> r.profile_thresholds == config.profile_thresholds
            &&& r.profile_thresholds.low_frac.finite() && r.profile_thresholds.high_frac.finite()
            &&& 0 <= r.profile_thresholds.low_frac.value()
                <= r.profile_thresholds.high_frac.value() <= one
            &&& r.gpu_clock_fractions == config.gpu_clock_fractions
        }),
{
    lemma_numbers();
    mending_is_idempotent(config);
}

/// The default factors raise: the slow boost lies above the sustained limit, and the fast
/// boost above the slow one. The default thresholds are in order within the unit
/// interval.
pub proof fn defaults_are_in_order(r: RuntimeConfig)
    requires
        call_ensures(<RuntimeConfig as Default>::default, (), r),
    ensures
        (Single { bits: ONE }).value() < r.sppt_factor.value() < r.fppt_factor.value(),
        0 < r.profile_thresholds.low_frac.value() < r.profile_thresholds.high_frac.value() < (
        Single { bits: ONE }).value(),
        r.gpu_clock_fractions.silent_max_frac.value()
            < r.gpu_clock_fractions.balanced_max_frac.value()
            < r.gpu_clock_fractions.aggressive_max_frac.value() == (Single { bits: ONE }).value(),
{
    lemma_numbers();
    single::lemma_units_ordered(
        Single { bits: DEFAULT_SILENT_MAX_FRAC },
        Single { bits: DEFAULT_BALANCED_MAX_FRAC },
    );
    single::lemma_units_ordered(
        Single { bits: DEFAULT_BALANCED_MAX_FRAC },
        Single { bits: DEFAULT_AGGRESSIVE_MAX_FRAC },
    );
}

/// Two tunings that differ in any number are not equal.
pub proof fn equal_tunings_agree_in_every_number(a: RuntimeConfig, b: RuntimeConfig)
    requires
        a.equals(b),
    ensures
        a.sppt_factor.value() == b.sppt_factor.value(),
        a.fppt_factor.value() == b.fppt_factor.value(),
        a.profile_thresholds.low_frac.value() == b.profile_thresholds.low_frac.value(),
        a.profile_thresholds.high_frac.value() == b.profile_thresholds.high_frac.value(),
        a.gpu_clock_fractions.silent_max_frac.value()
            == b.gpu_clock_fractions.silent_max_frac.value(),
        a.gpu_clock_fractions.balanced_max_frac.value()
            == b.gpu_clock_fractions.balanced_max_frac.value(),
        a.gpu_clock_fractions.aggressive_max_frac.value()
            == b.gpu_clock_fractions.aggressive_max_frac.value(),
{
}

/// What of a tuning is sound stays as it is.
pub proof fn mending_keeps_sound_parts(config: RuntimeConfig)
    ensures
        ({
            let one = (Single { bits: ONE }).value();
            let r = config.mended();
            let (low, high) = (
                config.profile_thresholds.low_frac,
                config.profile_thresholds.high_frac,
            );
            &&& config.sppt_factor.finite() && config.sppt_factor.value() >= one
                ==> r.sppt_factor == config.sppt_factor
            &&& config.fppt_factor.finite() && config.fppt_factor.value() >= one
                ==> r.fppt_factor == config.fppt_factor
            &&& low.finite() && high.finite() && 0 <= low.value() <= high.value() <= one
                ==> r.profile_thresholds == config.profile_thresholds
            &&& r.gpu_clock_fractions == config.gpu_clock_fractions
        }),
{
    lemma_numbers();
}

/// The default factors are sound.
pub proof fn standard_factors_stay()
    ensures
        valid_factor(Single { bits: DEFAULT_SPPT_FACTOR }),
        valid_factor(Single { bits: DEFAULT_FPPT_FACTOR }),
{
    lemma_numbers();
}

} // verus!
