//! Physical quantities.

use crate::error::{violation, HpdError};
use crate::error;
use crate::text::push_dec;
use crate::text;
use vstd::prelude::*;

verus! {

/// Milliwatts in a watt. The kernel and every client speak watts; the daemon
/// computes in milliwatts.
pub const MILLIWATTS_PER_WATT: u32 = 1_000;

/// A power in milliwatts.
#[derive(Debug, Clone, Copy, PartialEq, Eq, PartialOrd, Ord, Structural)]
pub struct PowerMilliwatts(pub u32);

impl PowerMilliwatts {
    /// The power of so many whole watts. A value whose milliwatts exceed `u32` is
    /// refused.
    pub fn from_watts(watts: u32) -> (r: Result<Self, HpdError>)
        ensures
            watts * MILLIWATTS_PER_WATT <= u32::MAX ==> r is Ok && r->Ok_0.0 == watts
                * MILLIWATTS_PER_WATT,
            watts * MILLIWATTS_PER_WATT > u32::MAX ==> r is Err && error::is_violation(
                r->Err_0,
                too_many_watts(watts),
            ),
    {
        match watts.checked_mul(MILLIWATTS_PER_WATT) {
            Some(milliwatts) => Ok(PowerMilliwatts(milliwatts)),
            None => {
                let mut s = "watts value ".to_owned();
                push_dec(&mut s, watts as u64);
                s.append(" too large to convert to milliwatts");
                Err(violation(s))
            },
        }
    }

    /// Whole watts, rounded down.
    pub open spec fn watts(self) -> nat {
        self.0 as nat / 1000
    }

    /// Whole watts, rounded down.
    pub fn as_watts(self) -> (r: u32)
        ensures
            r == self.watts(),
    {
        self.0 / MILLIWATTS_PER_WATT
    }
}

/// Why a wattage is refused.
pub open spec fn too_many_watts(watts: u32) -> Seq<char> {
    "watts value "@ + text::dec(watts as nat) + " too large to convert to milliwatts"@
}

/// A fan speed in revolutions per minute.
#[derive(Debug, Clone, Copy, PartialEq, Eq, Structural)]
pub struct Rpm(pub u16);

/// A temperature in whole degrees Celsius.
#[derive(Debug, Clone, Copy, PartialEq, Eq, Structural)]
pub struct Celsius(pub i32);

/// `milli / 1000`, rounded toward zero.
pub open spec fn whole_degrees(milli: int) -> int {
    if milli >= 0 {
        milli / 1000
    } else {
        -((-milli) / 1000)
    }
}

impl Celsius {
    /// The temperature of so many thousandths of a degree, rounded toward zero.
    pub fn from_millidegrees(milli: i32) -> (r: Self)
        ensures
            r.0 == whole_degrees(milli as int),
    {
        if milli >= 0 {
            Celsius(milli / 1000)
        } else {
            let magnitude: i64 = -(milli as i64);
            Celsius((-(magnitude / 1000)) as i32)
        }
    }
}

/// Whole watts in milliwatts are a thousand times as many, and come back as they were; a
/// power in whole watts is less than a watt below it.
pub proof fn watts_are_thousands_of_milliwatts(
    watts: u32,
    p: PowerMilliwatts,
    r: Result<PowerMilliwatts, HpdError>,
    w: u32,
)
    requires
        call_ensures(PowerMilliwatts::from_watts, (watts,), r),
        call_ensures(PowerMilliwatts::as_watts, (p,), w),
    ensures
        r is Ok <==> watts * 1000 <= u32::MAX,
        r matches Ok(made) ==> made.0 == watts * 1000 && made.watts() == watts,
        w * 1000 <= p.0 < w * 1000 + 1000,
{
}

/// A temperature in whole degrees is less than a degree away from the one in thousandths, on
/// the side of zero.
pub proof fn degrees_are_thousands_of_millidegrees(milli: i32, r: Celsius)
    requires
        call_ensures(Celsius::from_millidegrees, (milli,), r),
    ensures
        milli >= 0 ==> r.0 * 1000 <= milli < r.0 * 1000 + 1000,
        milli <= 0 ==> r.0 * 1000 - 1000 < milli <= r.0 * 1000,
{
}

} // verus!
