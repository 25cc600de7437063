//! The ACPI platform profile of ASUS handhelds.

use crate::error::{HpdError, SysfsError};
use crate::platform_profile::PlatformProfile;
use crate::profile::ProfileName;
use crate::journal;
use crate::journal::{Entry, Journal};
use crate::sysfs;
use crate::sysfs::SysfsIo;
use crate::text;
use vstd::prelude::*;

verus! {

pub const PROFILE_PATH: &'static str = "/sys/firmware/acpi/platform_profile";

pub const CHOICES_PATH: &'static str = "/sys/firmware/acpi/platform_profile_choices";

/// Whether `profile` is what the firmware's word `val` stands for.
pub open spec fn firmware_profile(val: Seq<char>, profile: ProfileName) -> bool {
    if val == "low-power"@ || val == "quiet"@ {
        profile is PowerSaver
    } else if val == "balanced"@ {
        profile is Balanced
    } else if val == "performance"@ {
        profile is Performance
    } else {
        profile matches ProfileName::Custom(own) && own@ == val
    }
}

/// The profile that the firmware's word `val` stands for.
pub fn parse_profile(val: &str) -> (r: ProfileName)
    ensures
        firmware_profile(val@, r),
{
    if text::same(val, "low-power") || text::same(val, "quiet") {
        ProfileName::PowerSaver
    } else if text::same(val, "balanced") {
        ProfileName::Balanced
    } else if text::same(val, "performance") {
        ProfileName::Performance
    } else {
        ProfileName::Custom(val.to_owned())
    }
}

/// The firmware's word for a profile, among the words it knows. A firmware
/// without a power saver gets the balanced profile.
pub open spec fn firmware_word(profile: ProfileName, choices: Seq<Seq<char>>) -> Seq<char> {
    match profile {
        ProfileName::PowerSaver => if choices.contains("quiet"@) {
            "quiet"@
        } else if choices.contains("low-power"@) {
            "low-power"@
        } else {
            "balanced"@
        },
        ProfileName::Balanced => "balanced"@,
        ProfileName::Performance => "performance"@,
        ProfileName::Custom(own) => own@,
    }
}

fn has_choice(choices: &Vec<String>, word: &str) -> (r: bool)
    ensures
        r == text::texts(choices@).contains(word@),
{
    let mut i: usize = 0;
    while i < choices.len()
        invariant
            i <= choices.len(),
            forall|k: int| 0 <= k < i ==> (#[trigger] choices@[k])@ != word@,
        decreases choices.len() - i,
    {
        if text::same(choices[i].as_str(), word) {
            assert(text::texts(choices@)[i as int] == word@);
            return true;
        }
        i = i + 1;
    }
    assert forall|k: int| 0 <= k < choices@.len() implies text::texts(choices@)[k] != word@ by {
        assert(choices@[k]@ != word@);
    }
    false
}

/// The firmware's word for a profile, among the words it knows.
pub fn resolve_target_string(profile: &ProfileName, choices: &Vec<String>) -> (r: String)
    ensures
        r@ == firmware_word(*profile, text::texts(choices@)),
{
    match profile {
        ProfileName::PowerSaver => {
            if has_choice(choices, "quiet") {
                "quiet".to_owned()
            } else if has_choice(choices, "low-power") {
                "low-power".to_owned()
            } else {
                "balanced".to_owned()
            }
        },
        ProfileName::Balanced => "balanced".to_owned(),
        ProfileName::Performance => "performance".to_owned(),
        ProfileName::Custom(own) => own.clone(),
    }
}

/// Whether the requests from `from` up to `to` switched to a profile and ended in
/// `r`: the words that the firmware knows are read, then its word for the profile
/// is written. There are no other requests.
pub open spec fn profile_set<S: SysfsIo>(
    s: &S,
    log: Seq<Entry>,
    from: int,
    to: int,
    profile: ProfileName,
    r: Result<(), HpdError>,
) -> bool {
    &&& journal::read_at(s, log, from, CHOICES_PATH@)
    &&& match journal::answer_at(log, from) {
        Ok(t) => {
            &&& journal::write_at(
                s,
                log,
                from + 1,
                PROFILE_PATH@,
                firmware_word(profile, text::words(t@)),
            )
            &&& to == from + 2
            &&& r == journal::result_at(log, from + 1)
        },
        Err(e) => to == from + 1 && r == Err::<(), HpdError>(HpdError::Sysfs(e)),
    }
}

/// Switch to a profile.
pub fn program<S: SysfsIo>(files: &mut Journal<S>, profile: &ProfileName) -> (r: Result<
    (),
    HpdError,
>)
    ensures
        final(files).files() == old(files).files(),
        journal::goes_on(old(files).log(), final(files).log()),
        profile_set(
            old(files).files(),
            final(files).log(),
            old(files).log().len() as int,
            final(files).log().len() as int,
            *profile,
            r,
        ),
{
    match files.read(CHOICES_PATH) {
        Ok(t) => {
            let choices = text::split_whitespace(t.as_str());
            let word = resolve_target_string(profile, &choices);
            files.write(PROFILE_PATH, word.as_str())
        },
        Err(e) => Err(HpdError::Sysfs(e)),
    }
}

/// The platform profile of an ASUS handheld.
pub struct AsusProfileBackend<S: SysfsIo> {
    pub sysfs: S,
}

impl<S: SysfsIo> AsusProfileBackend<S> {
    pub fn new(sysfs: S) -> (r: Self)
        ensures
            r.sysfs == sysfs,
    {
        AsusProfileBackend { sysfs }
    }
}

impl<S: SysfsIo> PlatformProfile for AsusProfileBackend<S> {
    fn get_active_profile(&self) -> (r: Result<ProfileName, HpdError>)
        ensures
            exists|raw: Result<String, SysfsError>| #[trigger]
                sysfs::read_gave(&self.sysfs, PROFILE_PATH@, raw) && match raw {
                    Ok(t) => r is Ok && firmware_profile(t@, r->Ok_0),
                    Err(e) => r == Err::<ProfileName, HpdError>(HpdError::Sysfs(e)),
                },
    {
        let raw = sysfs::read(&self.sysfs, PROFILE_PATH);
        assert(sysfs::read_gave(&self.sysfs, PROFILE_PATH@, raw));
        match raw {
            Ok(t) => Ok(parse_profile(t.as_str())),
            Err(e) => Err(HpdError::Sysfs(e)),
        }
    }

    fn set_active_profile(&self, profile: &ProfileName) -> (r: Result<(), HpdError>)
        ensures
            exists|log: Seq<Entry>| #[trigger]
                profile_set(&self.sysfs, log, 0, log.len() as int, *profile, r),
    {
        let mut files = Journal::new(&self.sysfs);
        program(&mut files, profile)
    }
}

/// A profile that the firmware has a word for is read back as it was set.
pub proof fn firmware_word_round_trip(profile: ProfileName, choices: Seq<Seq<char>>, read: ProfileName)
    requires
        profile is Balanced || profile is Performance || (profile is PowerSaver && (
        choices.contains("quiet"@) || choices.contains("low-power"@))),
        firmware_profile(firmware_word(profile, choices), read),
    ensures
        read == profile,
{
    reveal_strlit("low-power");
    reveal_strlit("quiet");
    reveal_strlit("balanced");
    reveal_strlit("performance");
    assert("balanced"@.len() == 8 && "performance"@.len() == 11 && "quiet"@.len() == 5
        && "low-power"@.len() == 9);
}

/// The firmware's words are understood one by one, and each of our profiles is asked for by
/// a word that is understood as it again, save for a power saver on a firmware without one.
pub proof fn firmware_words_are_understood(val: &str, r: ProfileName)
    requires
        call_ensures(parse_profile, (val,), r),
    ensures
        r is PowerSaver <==> val@ == "low-power"@ || val@ == "quiet"@,
        r is Balanced <==> val@ == "balanced"@,
        r is Performance <==> val@ == "performance"@,
        r matches ProfileName::Custom(own) ==> own@ == val@,
{
    reveal_strlit("low-power");
    reveal_strlit("quiet");
    reveal_strlit("balanced");
    reveal_strlit("performance");
    assert("balanced"@.len() == 8 && "performance"@.len() == 11 && "quiet"@.len() == 5
        && "low-power"@.len() == 9);
}

/// A profile is asked for by the firmware's own word: one that it offers, where the profile
/// is the power saver and it offers one; the quiet one before the other.
pub proof fn profiles_are_asked_for_by_word(profile: ProfileName, choices: Vec<String>, r: String)
    requires
        call_ensures(resolve_target_string, (&profile, &choices), r),
    ensures
        profile is Balanced ==> r@ == "balanced"@,
        profile is Performance ==> r@ == "performance"@,
        profile matches ProfileName::Custom(own) ==> r@ == own@,
        profile is PowerSaver ==> {
            let offered = text::texts(choices@);
            &&& offered.contains("quiet"@) <==> r@ == "quiet"@
            &&& r@ == "low-power"@ ==> offered.contains("low-power"@)
            &&& r@ == "quiet"@ || r@ == "low-power"@ || r@ == "balanced"@
            &&& r@ == "balanced"@ ==> !offered.contains("low-power"@)
        },
{
    reveal_strlit("low-power");
    reveal_strlit("quiet");
    reveal_strlit("balanced");
    reveal_strlit("performance");
    assert("balanced"@.len() == 8 && "performance"@.len() == 11 && "quiet"@.len() == 5
        && "low-power"@.len() == 9);
}

/// Switching reads what the firmware offers, then writes one word to the file of the profile.
pub proof fn switching_writes_one_word<S: SysfsIo>(
    backend: AsusProfileBackend<S>,
    profile: ProfileName,
    r: Result<(), HpdError>,
)
    requires
        call_ensures(
            <AsusProfileBackend<S> as PlatformProfile>::set_active_profile,
            (&backend, &profile),
            r,
        ),
    ensures
        r is Ok ==> exists|log: Seq<Entry>| #[trigger]
            journal::read_at(
                &backend.sysfs,
                log,
                0,
                "/sys/firmware/acpi/platform_profile_choices"@,
            ) && log.len() == 2 && (log[1] matches Entry::Write { path, value, result } && path
                == "/sys/firmware/acpi/platform_profile"@ && (profile is Balanced ==> value
                == "balanced"@) && (profile is Performance ==> value == "performance"@)),
{
    let log = choose|log: Seq<Entry>| #[trigger]
        profile_set(&backend.sysfs, log, 0, log.len() as int, profile, r);
    assert(journal::read_at(&backend.sysfs, log, 0, CHOICES_PATH@));
}

} // verus!
