//! What the authority's answers come to. Anything but a clear yes is a no.

use crate::actions::PolkitAction;
use crate::text;
use vstd::prelude::*;

verus! {

/// Whether the authority said yes. `reply` is nothing where the caller is not
/// known or the authority could not be asked.
pub fn authorized(reply: Option<bool>) -> (r: bool)
    ensures
        r <==> reply == Some(true),
{
    match reply {
        Some(granted) => granted,
        None => false,
    }
}

/// Whether a failure to ask tells that the policy is not installed.
pub fn policy_is_missing(report: &str) -> (r: bool)
    ensures
        r == text::has_substring(report@, "not registered"@),
{
    text::contains(report, "not registered")
}

/// Of the first `n` actions the names that are not registered, in order.
pub open spec fn unregistered(registered: Seq<Seq<char>>, n: nat) -> Seq<Seq<char>>
    decreases n,
{
    if n == 0 {
        Seq::empty()
    } else {
        let before = unregistered(registered, (n - 1) as nat);
        let id = PolkitAction::ALL@[n - 1].id();
        if registered.contains(id) {
            before
        } else {
            before.push(id)
        }
    }
}

fn is_registered(registered: &Vec<String>, id: &str) -> (r: bool)
    ensures
        r == text::texts(registered@).contains(id@),
{
    let ghost all = text::texts(registered@);
    let mut i: usize = 0;
    while i < registered.len()
        invariant
            i <= registered.len(),
            all == text::texts(registered@),
            forall|k: int| 0 <= k < i ==> all[k] != id@,
        decreases registered.len() - i,
    {
        if text::same(registered[i].as_str(), id) {
            assert(all[i as int] == id@);
            return true;
        }
        i = i + 1;
    }
    false
}

/// The names of the actions that the authority does not know.
pub fn missing_actions(registered: &Vec<String>) -> (r: Vec<&'static str>)
    ensures
        r@.map_values(|s: &'static str| s@) == unregistered(
            text::texts(registered@),
            PolkitAction::ALL@.len(),
        ),
{
    let ghost all = text::texts(registered@);
    let actions = PolkitAction::ALL;
    let mut missing: Vec<&'static str> = Vec::new();
    let mut i: usize = 0;
    assert(missing@.map_values(|s: &'static str| s@) =~= unregistered(all, 0));
    while i < actions.len()
        invariant
            i <= actions.len(),
            actions == PolkitAction::ALL,
            all == text::texts(registered@),
            missing@.map_values(|s: &'static str| s@) == unregistered(all, i as nat),
        decreases actions.len() - i,
    {
        let id = actions[i].as_id();
        if !is_registered(registered, id) {
            let ghost before = missing@;
            missing.push(id);
            assert(missing@.map_values(|s: &'static str| s@) =~= before.map_values(
                |s: &'static str| s@,
            ).push(id@));
        }
        i = i + 1;
    }
    missing
}

/// The daemon's account of itself: whether every action is known to the
/// authority, and the names of those that are not. Where the authority could
/// not be asked, `missing` is nothing and no alarm is raised.
pub fn diagnostics(missing: Option<Vec<String>>) -> (r: (bool, Vec<String>))
    ensures
        r.1@ == (match missing {
            Some(names) => names@,
            None => Seq::empty(),
        }),
        r.0 <==> r.1@.len() == 0,
{
    let names = match missing {
        Some(names) => names,
        None => Vec::new(),
    };
    (names.len() == 0, names)
}

/// An action is missed exactly where its name is not registered.
pub proof fn missing_is_exactly_unregistered(registered: Seq<Seq<char>>, action: PolkitAction)
    ensures
        unregistered(registered, PolkitAction::ALL@.len()).contains(action.id())
            <==> !registered.contains(action.id()),
{
    crate::actions::actions_are_listed_and_told_apart(action, action);
    assert(PolkitAction::ALL@[PolkitAction::ALL@.index_of(action)] == action);
    lemma_unregistered(registered, PolkitAction::ALL@.len(), action.id());
}

proof fn lemma_unregistered(registered: Seq<Seq<char>>, n: nat, id: Seq<char>)
    requires
        n <= PolkitAction::ALL@.len(),
    ensures
        unregistered(registered, n).contains(id) <==> !registered.contains(id) && exists|k: int|
            0 <= k < n && #[trigger] PolkitAction::ALL@[k].id() == id,
    decreases n,
{
    if n > 0 {
        lemma_unregistered(registered, (n - 1) as nat, id);
        let before = unregistered(registered, (n - 1) as nat);
        let last = PolkitAction::ALL@[n - 1].id();
        if !registered.contains(last) {
            assert(before.push(last)[before.len() as int] == last);
            assert forall|x: Seq<char>| before.contains(x) implies before.push(last).contains(x) by {
                let i = before.index_of(x);
                assert(before.push(last)[i] == x);
            }
        }
    }
}

/// Nothing but a yes of the authority is a yes, and no alarm is raised over a policy unless
/// an action of it is known to be missing.
pub proof fn only_a_yes_is_a_yes(
    reply: Option<bool>,
    granted: bool,
    missing: Option<Vec<String>>,
    r: (bool, Vec<String>),
)
    requires
        call_ensures(authorized, (reply,), granted),
        call_ensures(diagnostics, (missing,), r),
    ensures
        granted ==> reply is Some && reply->0,
        !granted ==> reply is None || !reply->0,
        missing is None ==> r.0,
        missing matches Some(names) ==> r.1@ == names@ && (r.0 <==> names@.len() == 0),
{
}

} // verus!
