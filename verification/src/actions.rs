//! The actions that clients need authorization for.

use vstd::prelude::*;

verus! {

/// An action that needs authorization.
#[derive(Debug, Clone, Copy, PartialEq, Eq, Structural)]
pub enum PolkitAction {
    /// Change the power envelope.
    SetTdp,
    /// Change the charge limit.
    SetCharge,
    /// Change the platform profile, the cooling or the GPU clock.
    SetProfile,
    /// Program the fan curve.
    SetFanCurve,
}

impl PolkitAction {
    /// Every action.
    pub const ALL: [PolkitAction; 4] = [
        PolkitAction::SetTdp,
        PolkitAction::SetCharge,
        PolkitAction::SetProfile,
        PolkitAction::SetFanCurve,
    ];

    /// The name that the authority knows the action by.
    pub open spec fn id(self) -> Seq<char> {
        match self {
            PolkitAction::SetTdp => "dev.cirodev.hpd.set-tdp"@,
            PolkitAction::SetCharge => "dev.cirodev.hpd.set-charge"@,
            PolkitAction::SetProfile => "dev.cirodev.hpd.set-profile"@,
            PolkitAction::SetFanCurve => "dev.cirodev.hpd.set-fan-curve"@,
        }
    }

    /// The name that the authority knows the action by.
    pub fn as_id(self) -> (r: &'static str)
        ensures
            r@ == self.id(),
    {
        match self {
            PolkitAction::SetTdp => "dev.cirodev.hpd.set-tdp",
            PolkitAction::SetCharge => "dev.cirodev.hpd.set-charge",
            PolkitAction::SetProfile => "dev.cirodev.hpd.set-profile",
            PolkitAction::SetFanCurve => "dev.cirodev.hpd.set-fan-curve",
        }
    }
}

/// Every action is listed, and the names tell the actions apart; each lies in
/// the daemon's own namespace.
pub proof fn actions_are_listed_and_told_apart(a: PolkitAction, b: PolkitAction)
    ensures
        PolkitAction::ALL@.contains(a),
        a.id() == b.id() ==> a == b,
        crate::text::has_prefix(a.id(), "dev.cirodev.hpd."@),
{
    reveal_strlit("dev.cirodev.hpd.set-tdp");
    reveal_strlit("dev.cirodev.hpd.set-charge");
    reveal_strlit("dev.cirodev.hpd.set-profile");
    reveal_strlit("dev.cirodev.hpd.set-fan-curve");
    reveal_strlit("dev.cirodev.hpd.");
    let all = PolkitAction::ALL@;
    assert(all[0] == PolkitAction::SetTdp);
    assert(all[1] == PolkitAction::SetCharge);
    assert(all[2] == PolkitAction::SetProfile);
    assert(all[3] == PolkitAction::SetFanCurve);
    assert(PolkitAction::SetTdp.id().len() == 23);
    assert(PolkitAction::SetCharge.id().len() == 26);
    assert(PolkitAction::SetProfile.id().len() == 27);
    assert(PolkitAction::SetFanCurve.id().len() == 29);
    assert(a.id().take("dev.cirodev.hpd."@.len() as int) =~= "dev.cirodev.hpd."@);
}

/// Each action goes by its own name.
pub proof fn actions_go_by_their_names(action: PolkitAction, r: &'static str)
    requires
        call_ensures(PolkitAction::as_id, (action,), r),
    ensures
        action == PolkitAction::SetTdp ==> r@ == "dev.cirodev.hpd.set-tdp"@,
        action == PolkitAction::SetCharge ==> r@ == "dev.cirodev.hpd.set-charge"@,
        action == PolkitAction::SetProfile ==> r@ == "dev.cirodev.hpd.set-profile"@,
        action == PolkitAction::SetFanCurve ==> r@ == "dev.cirodev.hpd.set-fan-curve"@,
{
}

} // verus!
