//! The rules of the power envelope.

use crate::error::{violation, HpdError};
use crate::error;
use crate::power::{PowerEnvelopeLimits, PowerEnvelopeTarget};
use crate::text::push_dec;
use crate::text;
use vstd::prelude::*;

verus! {

/// Why one rail may not be below another.
pub open spec fn rails_crossed(
    upper: Seq<char>,
    upper_mw: u32,
    lower: Seq<char>,
    lower_mw: u32,
) -> Seq<char> {
    upper + " ("@ + text::dec(upper_mw as nat) + "mW) must be >= "@ + lower + " ("@ + text::dec(lower_mw as nat)
        + "mW)"@
}

/// Why a rail may not leave the range of the hardware.
pub open spec fn rail_outside(rail: Seq<char>, mw: u32, min: u32, max: u32) -> Seq<char> {
    rail + " ("@ + text::dec(mw as nat) + "mW) out of hardware range ("@ + text::dec(min as nat) + "-"@ + text::dec(
        max as nat,
    ) + "mW)"@
}

/// Whether each rail is at least the one below it.
pub open spec fn rails_ordered(target: PowerEnvelopeTarget) -> bool {
    &&& target.spl.0 <= target.sppt.0
    &&& target.fppt matches Some(fppt) ==> target.sppt.0 <= fppt.0
}

/// Whether each rail lies in the range of the hardware.
pub open spec fn rails_in_range(target: PowerEnvelopeTarget, limits: PowerEnvelopeLimits) -> bool {
    &&& limits.spl_min.0 <= target.spl.0 <= limits.spl_max.0
    &&& limits.sppt_min.0 <= target.sppt.0 <= limits.sppt_max.0
    &&& target.fppt matches Some(fppt) ==> limits.fppt_min.0 <= fppt.0 <= limits.fppt_max.0
}

/// The first rule that an envelope breaks.
pub open spec fn envelope_defect(
    target: PowerEnvelopeTarget,
    limits: PowerEnvelopeLimits,
) -> Option<Seq<char>> {
    let (spl, sppt) = (target.spl.0, target.sppt.0);
    if sppt < spl {
        Some(rails_crossed("SPPT"@, sppt, "SPL"@, spl))
    } else if target.fppt is Some && (target.fppt->0).0 < sppt {
        Some(rails_crossed("FPPT"@, (target.fppt->0).0, "SPPT"@, sppt))
    } else if spl < limits.spl_min.0 || spl > limits.spl_max.0 {
        Some(rail_outside("SPL"@, spl, limits.spl_min.0, limits.spl_max.0))
    } else if sppt < limits.sppt_min.0 || sppt > limits.sppt_max.0 {
        Some(rail_outside("SPPT"@, sppt, limits.sppt_min.0, limits.sppt_max.0))
    } else if target.fppt is Some && ((target.fppt->0).0 < limits.fppt_min.0 || (target.fppt->0).0
        > limits.fppt_max.0) {
        Some(rail_outside("FPPT"@, (target.fppt->0).0, limits.fppt_min.0, limits.fppt_max.0))
    } else {
        None
    }
}

fn crossed_text(upper: &str, upper_mw: u32, lower: &str, lower_mw: u32) -> (r: String)
    ensures
        r@ == rails_crossed(upper@, upper_mw, lower@, lower_mw),
{
    let mut s = upper.to_owned();
    s.append(" (");
    push_dec(&mut s, upper_mw as u64);
    s.append("mW) must be >= ");
    s.append(lower);
    s.append(" (");
    push_dec(&mut s, lower_mw as u64);
    s.append("mW)");
    s
}

fn outside_text(rail: &str, mw: u32, min: u32, max: u32) -> (r: String)
    ensures
        r@ == rail_outside(rail@, mw, min, max),
{
    let mut s = rail.to_owned();
    s.append(" (");
    push_dec(&mut s, mw as u64);
    s.append("mW) out of hardware range (");
    push_dec(&mut s, min as u64);
    s.append("-");
    push_dec(&mut s, max as u64);
    s.append("mW)");
    s
}

/// Refuse an envelope whose rails cross or leave the range of the hardware,
/// naming the first rule that it breaks.
pub fn validate_power_envelope(
    target: &PowerEnvelopeTarget,
    device_limits: &PowerEnvelopeLimits,
) -> (r: Result<(), HpdError>)
    ensures
        error::refuses(r, envelope_defect(*target, *device_limits)),
        r is Ok <==> rails_ordered(*target) && rails_in_range(*target, *device_limits),
{
    if target.sppt.0 < target.spl.0 {
        return Err(violation(crossed_text("SPPT", target.sppt.0, "SPL", target.spl.0)));
    }
    if let Some(fppt) = target.fppt {
        if fppt.0 < target.sppt.0 {
            return Err(violation(crossed_text("FPPT", fppt.0, "SPPT", target.sppt.0)));
        }
    }
    if target.spl.0 < device_limits.spl_min.0 || target.spl.0 > device_limits.spl_max.0 {
        return Err(
            violation(
                outside_text(
                    "SPL",
                    target.spl.0,
                    device_limits.spl_min.0,
                    device_limits.spl_max.0,
                ),
            ),
        );
    }
    if target.sppt.0 < device_limits.sppt_min.0 || target.sppt.0 > device_limits.sppt_max.0 {
        return Err(
            violation(
                outside_text(
                    "SPPT",
                    target.sppt.0,
                    device_limits.sppt_min.0,
                    device_limits.sppt_max.0,
                ),
            ),
        );
    }
    if let Some(fppt) = target.fppt {
        if fppt.0 < device_limits.fppt_min.0 || fppt.0 > device_limits.fppt_max.0 {
            return Err(
                violation(
                    outside_text(
                        "FPPT",
                        fppt.0,
                        device_limits.fppt_min.0,
                        device_limits.fppt_max.0,
                    ),
                ),
            );
        }
    }
    Ok(())
}

// ---------------------------------------------------------------------------
// Laws
// ---------------------------------------------------------------------------

/// An envelope is accepted exactly where its rails rise from the sustained limit to the
/// peak, and each lies between the limits of that rail.
pub proof fn accepted_envelopes_rise_within_the_limits(
    target: PowerEnvelopeTarget,
    limits: PowerEnvelopeLimits,
    r: Result<(), HpdError>,
)
    requires
        call_ensures(validate_power_envelope, (&target, &limits), r),
    ensures
        r is Ok <==> {
            &&& target.spl.0 <= target.sppt.0
            &&& target.fppt matches Some(fppt) ==> target.sppt.0 <= fppt.0 && limits.fppt_min.0
                <= fppt.0 && fppt.0 <= limits.fppt_max.0
            &&& limits.spl_min.0 <= target.spl.0 && target.spl.0 <= limits.spl_max.0
            &&& limits.sppt_min.0 <= target.sppt.0 && target.sppt.0 <= limits.sppt_max.0
        },
{
}

/// A device with wider limits accepts no less.
pub proof fn wider_limits_accept_no_less(
    target: PowerEnvelopeTarget,
    limits: PowerEnvelopeLimits,
    wider: PowerEnvelopeLimits,
)
    requires
        envelope_defect(target, limits) is None,
        wider.spl_min.0 <= limits.spl_min.0,
        wider.sppt_min.0 <= limits.sppt_min.0,
        wider.fppt_min.0 <= limits.fppt_min.0,
        limits.spl_max.0 <= wider.spl_max.0,
        limits.sppt_max.0 <= wider.sppt_max.0,
        limits.fppt_max.0 <= wider.fppt_max.0,
    ensures
        envelope_defect(target, wider) is None,
{
}

/// A refusal over the range names the rail that left it, its power and the limits of it.
pub proof fn refusals_name_the_rail(
    target: PowerEnvelopeTarget,
    limits: PowerEnvelopeLimits,
    r: Result<(), HpdError>,
)
    requires
        call_ensures(validate_power_envelope, (&target, &limits), r),
        rails_ordered(target),
    ensures
        r matches Err(e) ==> (e matches HpdError::InvariantViolation(words) && {
            ||| !(limits.spl_min.0 <= target.spl.0 <= limits.spl_max.0) && words@ == "SPL"@ + " ("@
                + text::dec(target.spl.0 as nat) + "mW) out of hardware range ("@ + text::dec(
                limits.spl_min.0 as nat,
            ) + "-"@ + text::dec(limits.spl_max.0 as nat) + "mW)"@
            ||| !(limits.sppt_min.0 <= target.sppt.0 <= limits.sppt_max.0) && words@ == "SPPT"@
                + " ("@ + text::dec(target.sppt.0 as nat) + "mW) out of hardware range ("@
                + text::dec(limits.sppt_min.0 as nat) + "-"@ + text::dec(
                limits.sppt_max.0 as nat,
            ) + "mW)"@
            ||| target.fppt is Some && words@ == "FPPT"@ + " ("@ + text::dec(
                (target.fppt->0).0 as nat,
            ) + "mW) out of hardware range ("@ + text::dec(limits.fppt_min.0 as nat) + "-"@
                + text::dec(limits.fppt_max.0 as nat) + "mW)"@
        }),
{
}

} // verus!
