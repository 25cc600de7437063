//! The power-profiles interface that desktop clients know: direct changes of
//! the profile, and holds, by which a client keeps a profile in force until it
//! lets go of it or goes away.
//!
//! A hold is no second source of truth: everything here comes down to an
//! ordinary request to switch the profile.

use crate::power::PowerEnvelopeLimits;
use crate::profile::{ProfileName, RuntimeConfig};
use crate::reducer;
use crate::request::RequestError;
use crate::state::ProfileState;
use crate::text;
use crate::transition::Transition;
use vstd::prelude::*;

verus! {

/// The bus name that clients look for.
pub const BUS_NAME: &'static str = "net.hadess.PowerProfiles";

/// The object path that clients look for.
pub const OBJECT_PATH: &'static str = "/net/hadess/PowerProfiles";

/// The profiles on offer.
pub const PROFILES: [&'static str; 3] = ["power-saver", "balanced", "performance"];

/// The driver that each profile is credited to.
pub const DRIVER: &'static str = "hpd";

/// A profile that a client keeps in force.
#[derive(Debug)]
pub struct Hold {
    pub cookie: u32,
    pub profile: ProfileName,
    pub application_id: String,
    pub reason: String,
    /// The bus name of the client.
    pub holder: String,
}

impl Clone for Hold {
    fn clone(&self) -> (r: Self)
        ensures
            r == *self,
    {
        Hold {
            cookie: self.cookie,
            profile: self.profile.clone(),
            application_id: self.application_id.clone(),
            reason: self.reason.clone(),
            holder: self.holder.clone(),
        }
    }
}

/// Which holds are meant.
#[derive(Debug)]
pub enum HoldFilter {
    /// The one with this cookie.
    Cookie(u32),
    /// Those of this client.
    Holder(String),
    /// All of them.
    Every,
}

impl HoldFilter {
    /// Whether a hold is meant.
    pub open spec fn picks(self, hold: Hold) -> bool {
        match self {
            HoldFilter::Cookie(cookie) => hold.cookie == cookie,
            HoldFilter::Holder(name) => hold.holder@ == name@,
            HoldFilter::Every => true,
        }
    }

    fn matches_hold(&self, hold: &Hold) -> (r: bool)
        ensures
            r == self.picks(*hold),
    {
        match self {
            HoldFilter::Cookie(cookie) => hold.cookie == *cookie,
            HoldFilter::Holder(name) => text::same(hold.holder.as_str(), name.as_str()),
            HoldFilter::Every => true,
        }
    }
}

// ---------------------------------------------------------------------------
// The model
// ---------------------------------------------------------------------------

/// Whether a profile may be held.
pub open spec fn holdable(profile: ProfileName) -> bool {
    profile is PowerSaver || profile is Performance
}

/// The profile that holds keep in force. The power saver outranks the others.
pub open spec fn effective(holds: Seq<Hold>) -> Option<ProfileName> {
    if exists|i: int| 0 <= i < holds.len() && (#[trigger] holds[i]).profile is PowerSaver {
        Some(ProfileName::PowerSaver)
    } else if exists|i: int| 0 <= i < holds.len() && (#[trigger] holds[i]).profile is Performance {
        Some(ProfileName::Performance)
    } else {
        None
    }
}

/// The holds that are not meant, in order.
pub open spec fn kept(holds: Seq<Hold>, filter: HoldFilter) -> Seq<Hold>
    decreases holds.len(),
{
    if holds.len() == 0 {
        Seq::empty()
    } else {
        let before = kept(holds.drop_last(), filter);
        if filter.picks(holds.last()) {
            before
        } else {
            before.push(holds.last())
        }
    }
}

/// The cookies of the holds that are meant, in order.
pub open spec fn dropped(holds: Seq<Hold>, filter: HoldFilter) -> Seq<u32>
    decreases holds.len(),
{
    if holds.len() == 0 {
        Seq::empty()
    } else {
        let before = dropped(holds.drop_last(), filter);
        if filter.picks(holds.last()) {
            before.push(holds.last().cookie)
        } else {
            before
        }
    }
}

/// The request to switch to a profile.
pub open spec fn switch_to(profile: Option<ProfileName>) -> Option<Transition> {
    match profile {
        Some(profile) => Some(Transition::SetProfile(profile)),
        None => None,
    }
}

/// The holds in force, the next cookie, and the profile to return to when the
/// last hold is gone.
pub struct Stack {
    pub holds: Seq<Hold>,
    pub next_cookie: u32,
    pub snapshot: Option<ProfileName>,
}

impl Stack {
    /// Whether only profiles that may be held are held, and a profile to return
    /// to is kept exactly while there are holds.
    pub open spec fn tidy(self) -> bool {
        &&& forall|i: int| 0 <= i < self.holds.len() ==> holdable((#[trigger] self.holds[i]).profile)
        &&& self.snapshot is Some <==> self.holds.len() > 0
    }

    /// Whether no two holds have the same cookie, and the next one is new too.
    pub open spec fn told_apart(self) -> bool {
        &&& forall|i: int|
            0 <= i < self.holds.len() ==> (#[trigger] self.holds[i]).cookie < self.next_cookie
        &&& forall|i: int, j: int|
            0 <= i < j < self.holds.len() ==> (#[trigger] self.holds[i]).cookie != (
            #[trigger] self.holds[j]).cookie
    }

    /// With one hold more. The first one keeps the profile in force before it.
    pub open spec fn held(self, hold: Hold, current: ProfileName) -> Stack {
        Stack {
            holds: self.holds.push(hold),
            next_cookie: if self.next_cookie == u32::MAX {
                0
            } else {
                (self.next_cookie + 1) as u32
            },
            snapshot: if self.holds.len() == 0 {
                Some(current)
            } else {
                self.snapshot
            },
        }
    }

    /// Without some of the holds.
    pub open spec fn without(self, filter: HoldFilter) -> Stack {
        Stack { holds: kept(self.holds, filter), ..self }
    }

    /// What is left, and what is asked for, when some holds are let go: the
    /// profile that the others keep in force, else the one to return to.
    pub open spec fn released(self, filter: HoldFilter) -> (Stack, Option<Transition>) {
        let rest = self.without(filter);
        if dropped(self.holds, filter).len() == 0 {
            (self, None)
        } else if effective(rest.holds) is Some {
            (rest, switch_to(effective(rest.holds)))
        } else {
            (Stack { snapshot: None, ..rest }, switch_to(self.snapshot))
        }
    }

    /// Whether the profile in force changed from `previous` to a `current` that the
    /// holds do not account for.
    pub open spec fn overridden(self, previous: ProfileName, current: ProfileName) -> bool {
        &&& !previous.same(current)
        &&& effective(self.holds) is Some
        &&& !effective(self.holds)->0.same(current)
    }
}

// ---------------------------------------------------------------------------
// The interface
// ---------------------------------------------------------------------------

/// The holds of the clients.
#[derive(Debug)]
pub struct PowerProfilesShim {
    pub holds: Vec<Hold>,
    pub next_cookie: u32,
    pub pre_hold_profile: Option<ProfileName>,
}

impl View for PowerProfilesShim {
    type V = Stack;

    open spec fn view(&self) -> Stack {
        Stack {
            holds: self.holds@,
            next_cookie: self.next_cookie,
            snapshot: self.pre_hold_profile,
        }
    }
}

/// The profile that holds keep in force. The power saver outranks the others.
pub fn effective_hold_profile(holds: &Vec<Hold>) -> (r: Option<ProfileName>)
    ensures
        r == effective(holds@),
{
    let mut performance = false;
    let mut i: usize = 0;
    while i < holds.len()
        invariant
            i <= holds.len(),
            forall|k: int| 0 <= k < i ==> !((#[trigger] holds@[k]).profile is PowerSaver),
            performance <==> exists|k: int|
                0 <= k < i && (#[trigger] holds@[k]).profile is Performance,
        decreases holds.len() - i,
    {
        match holds[i].profile {
            ProfileName::PowerSaver => {
                assert(holds@[i as int].profile is PowerSaver);
                return Some(ProfileName::PowerSaver);
            },
            ProfileName::Performance => {
                assert(holds@[i as int].profile is Performance);
                performance = true;
            },
            _ => {},
        }
        i = i + 1;
    }
    if performance {
        Some(ProfileName::Performance)
    } else {
        None
    }
}

/// Whether `r` is the outcome of a request to hold a profile.
pub open spec fn hold_answered(
    before: Stack,
    profile: Seq<char>,
    reason: String,
    application_id: String,
    sender: Option<String>,
    current: ProfileName,
    r: Result<(u32, Transition), RequestError>,
    after: Stack,
) -> bool {
    if text::trimmed(profile).len() == 0 {
        &&& r matches Err(e) && e.is_invalid("profile name cannot be empty"@)
        &&& after == before
    } else {
        exists|name: ProfileName| #[trigger]
            name.is_named(profile) && if !holdable(name) {
                &&& r matches Err(e) && e.is_invalid(
                    "HoldProfile only accepts power-saver or performance, got "@ + name.name(),
                )
                &&& after == before
            } else {
                match sender {
                    None => {
                        &&& r matches Err(e) && e.is_failure("method call has no sender"@)
                        &&& after == before
                    },
                    Some(holder) => {
                        let hold = Hold {
                            cookie: before.next_cookie,
                            profile: name,
                            application_id,
                            reason,
                            holder,
                        };
                        &&& after == before.held(hold, current)
                        &&& effective(after.holds) is Some
                        &&& r == Ok::<(u32, Transition), RequestError>(
                            (before.next_cookie, Transition::SetProfile(effective(after.holds)->0)),
                        )
                    },
                }
            }
    }
}

impl PowerProfilesShim {
    /// No holds.
    pub fn new() -> (r: Self)
        ensures
            r@ == (Stack { holds: Seq::empty(), next_cookie: 1, snapshot: None }),
            r@.tidy(),
            r@.told_apart(),
    {
        PowerProfilesShim { holds: Vec::new(), next_cookie: 1, pre_hold_profile: None }
    }

    /// Register a hold. Returns its cookie and the profile that the holds keep in
    /// force now.
    pub fn hold(
        &mut self,
        profile: ProfileName,
        reason: String,
        application_id: String,
        holder: String,
        current_active: ProfileName,
    ) -> (r: (u32, Option<ProfileName>))
        ensures
            r.0 == old(self).next_cookie,
            r.1 == effective(final(self).holds@),
            final(self)@ == old(self)@.held(
                Hold { cookie: old(self).next_cookie, profile, application_id, reason, holder },
                current_active,
            ),
    {
        let cookie = self.next_cookie;
        if self.next_cookie == u32::MAX {
            self.next_cookie = 0;
        } else {
            self.next_cookie = self.next_cookie + 1;
        }
        if self.holds.len() == 0 {
            self.pre_hold_profile = Some(current_active);
        }
        self.holds.push(Hold { cookie, profile, application_id, reason, holder });
        (cookie, effective_hold_profile(&self.holds))
    }

    /// Let go of some holds. Returns their cookies and the profile that the
    /// others keep in force.
    pub fn remove_holds(&mut self, filter: &HoldFilter) -> (r: (Vec<u32>, Option<ProfileName>))
        ensures
            final(self)@ == old(self)@.without(*filter),
            r.0@ == dropped(old(self).holds@, *filter),
            r.1 == effective(final(self).holds@),
    {
        let mut rest: Vec<Hold> = Vec::new();
        let mut removed: Vec<u32> = Vec::new();
        let ghost all = self.holds@;
        let mut i: usize = 0;
        while i < self.holds.len()
            invariant
                i <= self.holds.len(),
                all == self.holds@,
                *self == *old(self),
                rest@ == kept(all.take(i as int), *filter),
                removed@ == dropped(all.take(i as int), *filter),
            decreases self.holds.len() - i,
        {
            assert(all.take(i + 1).drop_last() =~= all.take(i as int));
            if filter.matches_hold(&self.holds[i]) {
                removed.push(self.holds[i].cookie);
            } else {
                rest.push(self.holds[i].clone());
            }
            i = i + 1;
        }
        assert(all.take(i as int) =~= all);
        self.holds = rest;
        (removed, effective_hold_profile(&self.holds))
    }

    /// The profile that the holds keep in force.
    pub fn peek_expected(&self) -> (r: Option<ProfileName>)
        ensures
            r == effective(self.holds@),
    {
        effective_hold_profile(&self.holds)
    }

    /// Return to the profile from before the holds.
    pub fn restore_pre_hold_snapshot(&mut self) -> (r: Option<Transition>)
        ensures
            r == switch_to(old(self).pre_hold_profile),
            final(self)@ == (Stack { snapshot: None, ..old(self)@ }),
    {
        match self.pre_hold_profile.take() {
            Some(profile) => Some(Transition::SetProfile(profile)),
            None => None,
        }
    }

    fn release(&mut self, filter: &HoldFilter) -> (r: Option<Transition>)
        ensures
            (final(self)@, r) == old(self)@.released(*filter),
    {
        let (removed, target) = self.remove_holds(filter);
        if removed.len() == 0 {
            proof {
                lemma_kept_all(old(self).holds@, *filter);
            }
            return None;
        }
        match target {
            Some(profile) => Some(Transition::SetProfile(profile)),
            None => self.restore_pre_hold_snapshot(),
        }
    }

    /// A client asks to hold a profile. Only the power saver and performance can
    /// be held.
    pub fn hold_profile(
        &mut self,
        profile: &str,
        reason: String,
        application_id: String,
        sender: Option<String>,
        current_active: &ProfileName,
    ) -> (r: Result<(u32, Transition), RequestError>)
        ensures
            hold_answered(
                old(self)@,
                profile@,
                reason,
                application_id,
                sender,
                *current_active,
                r,
                final(self)@,
            ),
            old(self)@.tidy() ==> final(self)@.tidy(),
    {
        let name = match ProfileName::from_str(profile) {
            Ok(name) => name,
            Err(words) => {
                return Err(RequestError::InvalidArgs(words));
            },
        };
        let allowed = matches!(name, ProfileName::PowerSaver | ProfileName::Performance);
        if !allowed {
            let mut words = "HoldProfile only accepts power-saver or performance, got ".to_owned();
            words.append(name.to_string().as_str());
            assert(name.is_named(profile@));
            return Err(RequestError::InvalidArgs(words));
        }
        let holder = match sender {
            Some(holder) => holder,
            None => {
                assert(name.is_named(profile@));
                return Err(RequestError::Failed("method call has no sender".to_owned()));
            },
        };
        let ghost held = name;
        assert(held.is_named(profile@));
        let (cookie, target) = self.hold(
            name,
            reason,
            application_id,
            holder,
            current_active.clone(),
        );
        assert(self.holds@.last().profile == held);
        Ok((cookie, Transition::SetProfile(target.unwrap())))
    }

    /// A client lets go of a hold. An unknown cookie changes nothing.
    pub fn release_profile(&mut self, cookie: u32) -> (r: Option<Transition>)
        ensures
            (final(self)@, r) == old(self)@.released(HoldFilter::Cookie(cookie)),
            old(self)@.tidy() ==> final(self)@.tidy(),
    {
        let filter = HoldFilter::Cookie(cookie);
        let r = self.release(&filter);
        proof {
            lemma_released_is_tidy(old(self)@, filter);
        }
        r
    }

    /// A bus name changed hands. Where a client is gone, so are its holds.
    pub fn owner_changed(&mut self, old_owner: Option<String>, new_owner: Option<String>) -> (r:
        Option<Transition>)
        ensures
            match (old_owner, new_owner) {
                (Some(gone), None) => (final(self)@, r) == old(self)@.released(
                    HoldFilter::Holder(gone),
                ),
                _ => *final(self) == *old(self) && r is None,
            },
            old(self)@.tidy() ==> final(self)@.tidy(),
    {
        match (old_owner, new_owner) {
            (Some(gone), None) => {
                let filter = HoldFilter::Holder(gone);
                let r = self.release(&filter);
                proof {
                    lemma_released_is_tidy(old(self)@, filter);
                }
                r
            },
            _ => None,
        }
    }

    /// The profile in force was `previous` and is `current`. Where it changed and the
    /// holds do not account for that, somebody else changed it: every hold is
    /// cancelled, and nothing is returned to. Returns the cookies of the cancelled
    /// holds.
    pub fn reconcile(&mut self, previous: &ProfileName, current: &ProfileName) -> (r: Vec<u32>)
        ensures
            if old(self)@.overridden(*previous, *current) {
                &&& final(self)@ == (Stack {
                    holds: Seq::empty(),
                    snapshot: None,
                    ..old(self)@
                })
                &&& r@ == old(self).holds@.map_values(|h: Hold| h.cookie)
            } else {
                *final(self) == *old(self) && r@.len() == 0
            },
            old(self)@.tidy() ==> final(self)@.tidy(),
    {
        let external = *previous != *current && match self.peek_expected() {
            None => false,
            Some(expected) => expected != *current,
        };
        if !external {
            return Vec::new();
        }
        let (removed, _) = self.remove_holds(&HoldFilter::Every);
        self.pre_hold_profile = None;
        proof {
            lemma_every_hold(old(self).holds@);
        }
        removed
    }

    /// A client sets the profile directly.
    pub fn set_active_profile(value: &str) -> (r: Result<Transition, RequestError>)
        ensures
            text::trimmed(value@).len() == 0 ==> (r matches Err(e) && e.is_invalid(
                "profile name cannot be empty"@,
            )),
            text::trimmed(value@).len() > 0 ==> (r matches Ok(Transition::SetProfile(name))
                && name.is_named(value@)),
    {
        match ProfileName::from_str(value) {
            Ok(name) => Ok(Transition::SetProfile(name)),
            Err(words) => Err(RequestError::InvalidArgs(words)),
        }
    }
}

// ---------------------------------------------------------------------------
// Laws
// ---------------------------------------------------------------------------

proof fn lemma_kept_all(holds: Seq<Hold>, filter: HoldFilter)
    requires
        dropped(holds, filter).len() == 0,
    ensures
        kept(holds, filter) == holds,
    decreases holds.len(),
{
    if holds.len() > 0 {
        lemma_kept_all(holds.drop_last(), filter);
        assert(holds.drop_last().push(holds.last()) =~= holds);
    }
}

proof fn lemma_every_hold(holds: Seq<Hold>)
    ensures
        kept(holds, HoldFilter::Every) == Seq::<Hold>::empty(),
        dropped(holds, HoldFilter::Every) == holds.map_values(|h: Hold| h.cookie),
    decreases holds.len(),
{
    if holds.len() > 0 {
        lemma_every_hold(holds.drop_last());
        assert(holds.drop_last().map_values(|h: Hold| h.cookie).push(holds.last().cookie)
            =~= holds.map_values(|h: Hold| h.cookie));
    } else {
        assert(holds.map_values(|h: Hold| h.cookie) =~= Seq::<u32>::empty());
    }
}

/// The holds that are left were there before and are not meant, and none that
/// is not meant is lost.
proof fn lemma_kept_members(holds: Seq<Hold>, filter: HoldFilter)
    ensures
        kept(holds, filter).len() <= holds.len(),
        forall|i: int|
            0 <= i < kept(holds, filter).len() ==> holds.contains(
                #[trigger] kept(holds, filter)[i],
            ) && !filter.picks(kept(holds, filter)[i]),
        forall|i: int|
            0 <= i < holds.len() && !filter.picks(#[trigger] holds[i]) ==> kept(
                holds,
                filter,
            ).contains(holds[i]),
    decreases holds.len(),
{
    if holds.len() > 0 {
        let front = holds.drop_last();
        lemma_kept_members(front, filter);
        let k = kept(holds, filter);
        let kf = kept(front, filter);
        assert forall|i: int| 0 <= i < k.len() implies holds.contains(#[trigger] k[i])
            && !filter.picks(k[i]) by {
            if i < kf.len() {
                assert(k[i] == kf[i]);
                assert(front.contains(kf[i]));
                let j = front.index_of(kf[i]);
                assert(holds[j] == kf[i]);
            } else {
                assert(k[i] == holds.last());
                assert(holds[holds.len() - 1] == k[i]);
            }
        }
        assert forall|i: int| 0 <= i < holds.len() && !filter.picks(#[trigger] holds[i]) implies k.contains(
            holds[i],
        ) by {
            if i < front.len() {
                assert(front[i] == holds[i]);
                assert(kf.contains(front[i]));
                let j = kf.index_of(front[i]);
                assert(k[j] == holds[i]);
            } else {
                assert(k[k.len() - 1] == holds[i]);
            }
        }
    }
}

proof fn lemma_released_is_tidy(stack: Stack, filter: HoldFilter)
    ensures
        stack.tidy() ==> stack.released(filter).0.tidy(),
{
    if stack.tidy() {
        lemma_kept_members(stack.holds, filter);
        let rest = kept(stack.holds, filter);
        assert forall|i: int| 0 <= i < rest.len() implies holdable((#[trigger] rest[i]).profile) by {
            let j = stack.holds.index_of(rest[i]);
            assert(stack.holds[j] == rest[i]);
        }
        if rest.len() > 0 {
            assert(holdable(rest[0].profile));
        }
    }
}

/// The power saver is in force whenever somebody holds it, whatever else is
/// held and in whatever order.
pub proof fn power_saver_outranks(holds: Seq<Hold>, i: int)
    requires
        0 <= i < holds.len(),
        holds[i].profile is PowerSaver,
    ensures
        effective(holds) == Some(ProfileName::PowerSaver),
{
}

/// While there are holds, they keep a profile in force.
pub proof fn holds_have_effect(stack: Stack)
    requires
        stack.tidy(),
        stack.holds.len() > 0,
    ensures
        effective(stack.holds) is Some,
        holdable(effective(stack.holds)->0),
{
    assert(holdable(stack.holds[0].profile));
}

/// To hold and to let go again leaves the other holds as they were. Where there
/// are none, the profile from before the hold comes back.
pub proof fn hold_and_release_restores(stack: Stack, hold: Hold, current: ProfileName)
    requires
        stack.tidy(),
        stack.told_apart(),
        hold.cookie == stack.next_cookie,
        holdable(hold.profile),
    ensures
        ({
            let (after, request) = stack.held(hold, current).released(
                HoldFilter::Cookie(hold.cookie),
            );
            &&& after.holds == stack.holds
            &&& after.snapshot == stack.snapshot
            &&& request == switch_to(
                if stack.holds.len() == 0 {
                    Some(current)
                } else {
                    effective(stack.holds)
                },
            )
        }),
{
    let filter = HoldFilter::Cookie(hold.cookie);
    let held = stack.held(hold, current);
    lemma_others_stay(stack.holds, hold.cookie);
    assert(held.holds.drop_last() =~= stack.holds);
    assert(held.holds.last() == hold);
    if stack.holds.len() > 0 {
        holds_have_effect(stack);
    }
}

proof fn lemma_others_stay(holds: Seq<Hold>, cookie: u32)
    requires
        forall|i: int| 0 <= i < holds.len() ==> (#[trigger] holds[i]).cookie != cookie,
    ensures
        kept(holds, HoldFilter::Cookie(cookie)) == holds,
        dropped(holds, HoldFilter::Cookie(cookie)).len() == 0,
    decreases holds.len(),
{
    if holds.len() > 0 {
        let front = holds.drop_last();
        assert forall|i: int| 0 <= i < front.len() implies (#[trigger] front[i]).cookie != cookie by {
            assert(front[i] == holds[i]);
        }
        lemma_others_stay(front, cookie);
        assert(holds.last() == holds[holds.len() - 1]);
        assert(front.push(holds.last()) =~= holds);
    }
}

/// Cookies tell the holds apart, as long as the cookies have not run out.
pub proof fn cookies_stay_told_apart(stack: Stack, hold: Hold, current: ProfileName)
    requires
        stack.told_apart(),
        hold.cookie == stack.next_cookie,
        stack.next_cookie < u32::MAX,
    ensures
        stack.held(hold, current).told_apart(),
{
    let after = stack.held(hold, current);
    assert forall|i: int, j: int| 0 <= i < j < after.holds.len() implies (
    #[trigger] after.holds[i]).cookie != (#[trigger] after.holds[j]).cookie by {
        assert(after.holds[i] == stack.holds[i]);
        if j < stack.holds.len() {
            assert(after.holds[j] == stack.holds[j]);
        }
    }
    assert forall|i: int| 0 <= i < after.holds.len() implies (#[trigger] after.holds[i]).cookie
        < after.next_cookie by {
        if i < stack.holds.len() {
            assert(after.holds[i] == stack.holds[i]);
        }
    }
}

/// The profile that holds put in force is not taken for a change by somebody
/// else, and neither is a profile that did not change.
pub proof fn own_profile_is_no_override(stack: Stack, previous: ProfileName)
    requires
        stack.tidy(),
        stack.holds.len() > 0,
    ensures
        !stack.overridden(previous, effective(stack.holds)->0),
        !stack.overridden(previous, previous),
{
    holds_have_effect(stack);
}

/// An unknown cookie, or a client without holds, changes nothing.
pub proof fn releasing_nothing_changes_nothing(stack: Stack, filter: HoldFilter)
    requires
        forall|i: int| 0 <= i < stack.holds.len() ==> !filter.picks(#[trigger] stack.holds[i]),
    ensures
        stack.released(filter) == (stack, None::<Transition>),
{
    lemma_nothing_dropped(stack.holds, filter);
}

proof fn lemma_nothing_dropped(holds: Seq<Hold>, filter: HoldFilter)
    requires
        forall|i: int| 0 <= i < holds.len() ==> !filter.picks(#[trigger] holds[i]),
    ensures
        dropped(holds, filter).len() == 0,
    decreases holds.len(),
{
    if holds.len() > 0 {
        let front = holds.drop_last();
        assert forall|i: int| 0 <= i < front.len() implies !filter.picks(#[trigger] front[i]) by {
            assert(front[i] == holds[i]);
        }
        lemma_nothing_dropped(front, filter);
        assert(holds.last() == holds[holds.len() - 1]);
    }
}

/// A hold that is granted puts the profile that the holds keep in force. AC
/// outranks it: while that pins maximum performance, a hold is granted all the
/// same, and moves nothing. Either way the state that follows does not cancel it.
pub proof fn granted_holds_yield_to_ac(
    before: Stack,
    profile: Seq<char>,
    reason: String,
    application_id: String,
    sender: Option<String>,
    r: Result<(u32, Transition), RequestError>,
    after: Stack,
    state: ProfileState,
    limits: PowerEnvelopeLimits,
    config: RuntimeConfig,
)
    requires
        hold_answered(
            before,
            profile,
            reason,
            application_id,
            sender,
            state.active_profile,
            r,
            after,
        ),
        r is Ok,
    ensures
        (r->Ok_0).0 == before.next_cookie,
        after.holds.len() == before.holds.len() + 1,
        reducer::next(state, (r->Ok_0).1, limits, config) matches Ok(outcome) && (if state.pinned() {
            outcome == reducer::unchanged(state)
        } else {
            effective(after.holds) == Some((r->Ok_0).1->SetProfile_0)
                && outcome.state.active_profile.same(effective(after.holds)->0)
        }) && !after.overridden(state.active_profile, outcome.state.active_profile),
{
}

/// Of several holds the power saver wins, then performance; without a hold of either there is
/// nothing in force.
pub proof fn the_most_saving_hold_wins(holds: Vec<Hold>, r: Option<ProfileName>)
    requires
        call_ensures(effective_hold_profile, (&holds,), r),
    ensures
        ({
            let saver = exists|i: int|
                0 <= i < holds@.len() && (#[trigger] holds@[i]).profile is PowerSaver;
            let fast = exists|i: int|
                0 <= i < holds@.len() && (#[trigger] holds@[i]).profile is Performance;
            &&& r == Some(ProfileName::PowerSaver) <==> saver
            &&& r == Some(ProfileName::Performance) <==> fast && !saver
            &&& r is None <==> !fast && !saver
        }),
{
}

/// Letting go concerns the holds that are meant and no others: those with the cookie, or
/// those of the client.
pub proof fn letting_go_spares_the_others(stack: Stack, filter: HoldFilter, i: int)
    requires
        0 <= i < stack.holds.len(),
    ensures
        ({
            let hold = stack.holds[i];
            let meant = match filter {
                HoldFilter::Cookie(cookie) => hold.cookie == cookie,
                HoldFilter::Holder(name) => hold.holder@ == name@,
                HoldFilter::Every => true,
            };
            let rest = stack.released(filter).0.holds;
            &&& !meant ==> rest.contains(hold)
            &&& meant ==> !rest.contains(hold)
        }),
{
    lemma_kept_members(stack.holds, filter);
    let hold = stack.holds[i];
    let rest = kept(stack.holds, filter);
    if dropped(stack.holds, filter).len() == 0 {
        lemma_kept_all(stack.holds, filter);
    }
    if rest.contains(hold) {
        let k = rest.index_of(hold);
        assert(rest[k] == hold);
    }
}

/// When the last holds go, the profile from before them comes back, and is not kept any
/// longer; while others remain, the profile that they keep in force is asked for.
pub proof fn the_last_to_go_brings_back_the_profile(stack: Stack, filter: HoldFilter)
    requires
        stack.tidy(),
        stack.holds.len() > 0,
        exists|i: int| 0 <= i < stack.holds.len() && filter.picks(#[trigger] stack.holds[i]),
    ensures
        ({
            let (after, request) = stack.released(filter);
            &&& after.holds.len() == 0 ==> request == Some(
                Transition::SetProfile(stack.snapshot->0),
            ) && after.snapshot is None
            &&& after.holds.len() > 0 ==> after.snapshot == stack.snapshot && (request matches Some(
                Transition::SetProfile(profile),
            ) && effective(after.holds) == Some(profile))
        }),
{
    lemma_released_is_tidy(stack, filter);
    lemma_kept_members(stack.holds, filter);
    if dropped(stack.holds, filter).len() == 0 {
        lemma_kept_all(stack.holds, filter);
        let i = choose|i: int| 0 <= i < stack.holds.len() && filter.picks(#[trigger] stack.holds[i]);
        assert(kept(stack.holds, filter)[i] == stack.holds[i]);
    }
    let rest = kept(stack.holds, filter);
    if rest.len() > 0 {
        assert(stack.holds.contains(rest[0]));
        let j = stack.holds.index_of(rest[0]);
        assert(holdable(stack.holds[j].profile));
    }
}

/// The profile to return to is the one from before the first hold: later ones do not touch
/// it. A new hold joins the others, and its cookie is used up.
pub proof fn the_first_hold_keeps_the_profile(stack: Stack, hold: Hold, current: ProfileName)
    ensures
        ({
            let after = stack.held(hold, current);
            &&& stack.holds.len() == 0 ==> after.snapshot == Some(current)
            &&& stack.holds.len() > 0 ==> after.snapshot == stack.snapshot
            &&& after.holds.len() == stack.holds.len() + 1 && after.holds.last() == hold
            &&& after.holds.drop_last() == stack.holds
            &&& stack.next_cookie < u32::MAX ==> after.next_cookie == stack.next_cookie + 1
        }),
{
    assert(stack.held(hold, current).holds.drop_last() =~= stack.holds);
}

/// Only the power saver and performance can be held, and only by a client that is known.
/// What is granted gets the next cookie and is held under it by that client.
pub proof fn only_saver_and_performance_can_be_held(
    before: Stack,
    profile: Seq<char>,
    reason: String,
    application_id: String,
    sender: Option<String>,
    current: ProfileName,
    r: Result<(u32, Transition), RequestError>,
    after: Stack,
)
    requires
        hold_answered(before, profile, reason, application_id, sender, current, r, after),
    ensures
        ({
            let word = text::folded(profile);
            let saver = word == "power-saver"@ || word == "powersaver"@ || word == "quiet"@ || word
                == "low-power"@;
            let fast = word == "performance"@;
            &&& r is Ok ==> (saver || fast) && sender is Some
            &&& (saver || fast) && sender is Some && text::trimmed(profile).len() > 0 ==> r is Ok
            &&& r is Err ==> after == before
            &&& r matches Ok(granted) ==> {
                let hold = after.holds.last();
                &&& granted.0 == before.next_cookie && hold.cookie == granted.0
                &&& hold.holder == sender->0 && hold.reason == reason && hold.application_id
                    == application_id
                &&& saver ==> hold.profile is PowerSaver && granted.1 == Transition::SetProfile(
                    ProfileName::PowerSaver,
                )
                &&& fast ==> hold.profile is Performance
            }
        }),
{
    reveal_strlit("power-saver");
    reveal_strlit("powersaver");
    reveal_strlit("quiet");
    reveal_strlit("low-power");
    reveal_strlit("performance");
    reveal_strlit("balanced");
    assert("performance"@[0] == 'p' && "performance"@[1] == 'e' && "power-saver"@[1] == 'o');
    assert("performance"@.len() == 11 && "balanced"@.len() == 8 && "powersaver"@.len() == 10
        && "quiet"@.len() == 5 && "low-power"@.len() == 9);
    if r is Ok {
        assert(after.holds.last().cookie == before.next_cookie);
        if after.holds.last().profile is PowerSaver {
            power_saver_outranks(after.holds, after.holds.len() - 1);
        }
    }
}

/// Setting a profile asks for the profile of that name, and an empty name is refused.
pub proof fn profiles_are_set_by_name(value: &str, r: Result<Transition, RequestError>)
    requires
        call_ensures(PowerProfilesShim::set_active_profile, (value,), r),
    ensures
        r is Err <==> text::trimmed(value@).len() == 0,
        r matches Ok(request) ==> (request matches Transition::SetProfile(name)
            && crate::profile::goes_by(name, value@)),
{
}

/// Somebody else changed the profile exactly where it changed, there are holds, and it is
/// not what they keep in force.
pub proof fn overrides_are_changes_by_others(
    stack: Stack,
    previous: ProfileName,
    current: ProfileName,
)
    requires
        stack.tidy(),
    ensures
        stack.overridden(previous, current) ==> stack.holds.len() > 0 && !previous.same(current),
        stack.holds.len() > 0 && !previous.same(current) && !current.same(
            effective(stack.holds)->0,
        ) ==> stack.overridden(previous, current),
        stack.holds.len() > 0 && current.same(effective(stack.holds)->0) ==> !stack.overridden(
            previous,
            current,
        ),
{
    if stack.holds.len() > 0 {
        holds_have_effect(stack);
    }
}

/// A client that lets go, or is gone, takes its own holds with it and no others; a name that
/// only changes hands takes none.
pub proof fn clients_take_their_own_holds(
    shim: &mut PowerProfilesShim,
    gone: String,
    heir: Option<String>,
    r: Option<Transition>,
)
    requires
        call_ensures(PowerProfilesShim::owner_changed, (shim, Some(gone), heir), r),
    ensures
        heir is Some ==> *final(shim) == *old(shim) && r is None,
        heir is None ==> forall|i: int|
            0 <= i < old(shim).holds@.len() ==> (final(shim).holds@.contains(
                #[trigger] old(shim).holds@[i],
            ) <==> old(shim).holds@[i].holder@ != gone@),
{
    let stack = old(shim)@;
    if heir is None {
        assert forall|i: int| 0 <= i < stack.holds.len() implies (final(shim).holds@.contains(
            #[trigger] stack.holds[i],
        ) <==> stack.holds[i].holder@ != gone@) by {
            letting_go_spares_the_others(stack, HoldFilter::Holder(gone), i);
        }
    }
}

/// A cookie lets go of the hold that it was given for and of no other.
pub proof fn a_cookie_lets_go_of_its_hold(
    shim: &mut PowerProfilesShim,
    cookie: u32,
    r: Option<Transition>,
)
    requires
        call_ensures(PowerProfilesShim::release_profile, (shim, cookie), r),
    ensures
        forall|i: int|
            0 <= i < old(shim).holds@.len() ==> (final(shim).holds@.contains(
                #[trigger] old(shim).holds@[i],
            ) <==> old(shim).holds@[i].cookie != cookie),
{
    let stack = old(shim)@;
    assert forall|i: int| 0 <= i < stack.holds.len() implies (final(shim).holds@.contains(
        #[trigger] stack.holds[i],
    ) <==> stack.holds[i].cookie != cookie) by {
        letting_go_spares_the_others(stack, HoldFilter::Cookie(cookie), i);
    }
}

/// A change by somebody else cancels every hold, names each of them, and leaves nothing to
/// return to; a change that the holds account for cancels none.
pub proof fn others_cancel_every_hold(
    shim: &mut PowerProfilesShim,
    previous: ProfileName,
    current: ProfileName,
    r: Vec<u32>,
)
    requires
        call_ensures(PowerProfilesShim::reconcile, (shim, &previous, &current), r),
        old(shim)@.tidy(),
    ensures
        previous.same(current) ==> *final(shim) == *old(shim) && r@.len() == 0,
        ({
            let held = old(shim).holds@;
            let cancelled = held.len() > 0 && !previous.same(current) && !current.same(
                effective(held)->0,
            );
            &&& cancelled ==> final(shim).holds@.len() == 0 && final(shim).pre_hold_profile is None
                && r@.len() == held.len() && forall|i: int|
                0 <= i < held.len() ==> #[trigger] r@[i] == held[i].cookie
            &&& !cancelled ==> *final(shim) == *old(shim) && r@.len() == 0
        }),
{
    overrides_are_changes_by_others(old(shim)@, previous, current);
}

/// A hold is registered under the next cookie for the client that asked, and what is told
/// is the profile in force with it.
pub proof fn holds_are_registered_as_asked(
    shim: &mut PowerProfilesShim,
    profile: ProfileName,
    reason: String,
    application_id: String,
    holder: String,
    current: ProfileName,
    r: (u32, Option<ProfileName>),
)
    requires
        call_ensures(
            PowerProfilesShim::hold,
            (shim, profile, reason, application_id, holder, current),
            r,
        ),
    ensures
        ({
            let hold = final(shim).holds@.last();
            &&& final(shim).holds@.drop_last() == old(shim).holds@
            &&& r.0 == old(shim).next_cookie && hold.cookie == r.0
            &&& hold.profile == profile && hold.holder == holder
            &&& hold.reason == reason && hold.application_id == application_id
            &&& profile is PowerSaver ==> r.1 == Some(ProfileName::PowerSaver)
        }),
{
    let hold = Hold { cookie: old(shim).next_cookie, profile, application_id, reason, holder };
    the_first_hold_keeps_the_profile(old(shim)@, hold, current);
    if profile is PowerSaver {
        power_saver_outranks(final(shim).holds@, final(shim).holds@.len() - 1);
    }
}

} // verus!
