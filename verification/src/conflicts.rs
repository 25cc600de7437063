//! Other power daemons: the rivals that may not run beside this one, and those
//! that are merely reported.
//!
//! A daemon is found by the bus name that it owns, or, where it owns none, by
//! its systemd unit.

use crate::text;
use vstd::prelude::*;

verus! {

/// The rivals that own a bus name, each with that name.
pub const RIVAL_POWER_DAEMONS: [(&'static str, &'static str); 3] = [
    ("power-profiles-daemon", "net.hadess.PowerProfiles"),
    ("steamos-manager", "com.steampowered.SteamOSManager1"),
    ("tuned", "com.redhat.tuned"),
];

/// The rivals that own no bus name, each with the pattern of its unit.
pub const RIVAL_UNITS: [(&'static str, &'static str); 2] = [
    ("hhd", "hhd@*.service"),
    ("tlp", "tlp.service"),
];

/// The reported daemons that own a bus name, each with that name.
pub const ADVISORY_POWER_DAEMONS: [(&'static str, &'static str); 2] = [
    ("gamemoded", "com.feralinteractive.GameMode"),
    ("asusd", "org.asuslinux.Daemon"),
];

/// The reported daemons that own no bus name, each with the pattern of its unit.
pub const ADVISORY_UNITS: [(&'static str, &'static str); 1] = [
    ("auto-cpufreq", "auto-cpufreq.service"),
];

/// The names of the candidates that answered, in order. A candidate without an
/// answer counts as absent.
pub open spec fn live(candidates: Seq<(&'static str, &'static str)>, answers: Seq<bool>) -> Seq<
    Seq<char>,
>
    decreases candidates.len(),
{
    if candidates.len() == 0 {
        Seq::empty()
    } else {
        let before = live(candidates.drop_last(), answers);
        let i = candidates.len() - 1;
        if i < answers.len() && answers[i] {
            before.push(candidates[i].0@)
        } else {
            before
        }
    }
}

/// The names of the candidates that answered, in order.
pub fn live_names(candidates: &[(&'static str, &'static str)], answers: &Vec<bool>) -> (r: Vec<
    String,
>)
    ensures
        text::texts(r@) == live(candidates@, answers@),
{
    let mut found: Vec<String> = Vec::new();
    let mut i: usize = 0;
    assert(text::texts(found@) =~= live(candidates@.take(0), answers@));
    while i < candidates.len()
        invariant
            i <= candidates.len(),
            text::texts(found@) == live(candidates@.take(i as int), answers@),
        decreases candidates.len() - i,
    {
        assert(candidates@.take(i + 1).drop_last() =~= candidates@.take(i as int));
        if i < answers.len() && answers[i] {
            let ghost before = found@;
            found.push(candidates[i].0.to_owned());
            assert(text::texts(found@) =~= text::texts(before).push(candidates@[i as int].0@));
        }
        i = i + 1;
    }
    assert(candidates@.take(i as int) =~= candidates@);
    found
}

/// The rivals that run now: `owners` tells for each rival with a bus name
/// whether that name is owned, `units` for each other one whether its unit is
/// active.
pub fn power_conflicts(owners: &Vec<bool>, units: &Vec<bool>) -> (r: Vec<String>)
    ensures
        text::texts(r@) == live(RIVAL_POWER_DAEMONS@, owners@) + live(RIVAL_UNITS@, units@),
{
    let mut found = live_names(&RIVAL_POWER_DAEMONS, owners);
    let mut more = live_names(&RIVAL_UNITS, units);
    let ghost a = found@;
    let ghost b = more@;
    found.append(&mut more);
    assert(text::texts(found@) =~= text::texts(a) + text::texts(b));
    found
}

/// The reported daemons that run now: `owners` tells for each with a bus name
/// whether that name is owned, `units` for each other one whether its unit is
/// active.
pub fn advisory_daemons(owners: &Vec<bool>, units: &Vec<bool>) -> (r: Vec<String>)
    ensures
        text::texts(r@) == live(ADVISORY_POWER_DAEMONS@, owners@) + live(ADVISORY_UNITS@, units@),
{
    let mut found = live_names(&ADVISORY_POWER_DAEMONS, owners);
    let mut more = live_names(&ADVISORY_UNITS, units);
    let ghost a = found@;
    let ghost b = more@;
    found.append(&mut more);
    assert(text::texts(found@) =~= text::texts(a) + text::texts(b));
    found
}

/// Whether a list holds a bus name or unit pattern.
pub open spec fn lists(list: Seq<(&'static str, &'static str)>, id: Seq<char>) -> bool {
    exists|i: int| 0 <= i < list.len() && (#[trigger] list[i]).1@ == id
}

/// What counts as a rival is never among the daemons that are merely reported:
/// a repair that stops rivals leaves those alone.
pub proof fn rivals_are_not_merely_reported(id: Seq<char>)
    requires
        lists(RIVAL_POWER_DAEMONS@, id) || lists(RIVAL_UNITS@, id),
    ensures
        !lists(ADVISORY_POWER_DAEMONS@, id),
        !lists(ADVISORY_UNITS@, id),
{
    reveal_strlit("net.hadess.PowerProfiles");
    reveal_strlit("com.steampowered.SteamOSManager1");
    reveal_strlit("com.redhat.tuned");
    reveal_strlit("hhd@*.service");
    reveal_strlit("tlp.service");
    reveal_strlit("com.feralinteractive.GameMode");
    reveal_strlit("org.asuslinux.Daemon");
    reveal_strlit("auto-cpufreq.service");
    assert(id.len() == 24 || id.len() == 32 || id.len() == 16 || id.len() == 13 || id.len() == 11);
}

/// A daemon is named exactly where it answered, in the order of the list.
pub proof fn named_exactly_where_it_answered(
    candidates: &[(&'static str, &'static str)],
    answers: Vec<bool>,
    r: Vec<String>,
    name: Seq<char>,
)
    requires
        call_ensures(live_names, (candidates, &answers), r),
    ensures
        text::texts(r@).contains(name) <==> exists|i: int|
            0 <= i < candidates@.len() && i < answers@.len() && answers@[i] && (
            #[trigger] candidates@[i]).0@ == name,
{
    lemma_live(candidates@, answers@, name);
}

proof fn lemma_live(candidates: Seq<(&'static str, &'static str)>, answers: Seq<bool>, name: Seq<char>)
    ensures
        live(candidates, answers).contains(name) <==> exists|i: int|
            0 <= i < candidates.len() && i < answers.len() && answers[i] && (
            #[trigger] candidates[i]).0@ == name,
    decreases candidates.len(),
{
    if candidates.len() > 0 {
        let front = candidates.drop_last();
        let last = candidates.len() - 1;
        let before = live(front, answers);
        lemma_live(front, answers, name);
        assert forall|i: int| 0 <= i < front.len() implies front[i] == candidates[i] by {}
        if before.contains(name) {
            let i = choose|i: int|
                0 <= i < front.len() && i < answers.len() && answers[i] && (
                #[trigger] front[i]).0@ == name;
            assert(candidates[i].0@ == name);
            let k = before.index_of(name);
            assert(live(candidates, answers)[k] == name);
        }
        if exists|i: int|
            0 <= i < candidates.len() && i < answers.len() && answers[i] && (
            #[trigger] candidates[i]).0@ == name {
            let i = choose|i: int|
                0 <= i < candidates.len() && i < answers.len() && answers[i] && (
                #[trigger] candidates[i]).0@ == name;
            if i < last {
                assert(front[i].0@ == name);
                let k = before.index_of(name);
                assert(live(candidates, answers)[k] == name);
            } else {
                assert(live(candidates, answers)[before.len() as int] == name);
            }
        }
        if last < answers.len() && answers[last] {
            assert(live(candidates, answers) =~= before.push(candidates[last].0@));
        }
        if live(candidates, answers).contains(name) && !before.contains(name) {
            assert(candidates[last].0@ == name);
        }
    }
}

} // verus!
