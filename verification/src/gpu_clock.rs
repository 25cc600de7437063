//! The GPU clock range.

use crate::error::{violation, HpdError};
use crate::error;
use crate::fan_curve::FanCurvePreset;
use crate::text::push_dec;
use crate::text;
use vstd::prelude::*;

verus! {

/// A range of GPU clocks.
#[derive(Debug, Clone, Copy, PartialEq, Eq, Structural)]
pub struct GpuClockRange {
    pub min_mhz: u32,
    pub max_mhz: u32,
}

/// The clocks that the device accepts.
#[derive(Debug, Clone, Copy, PartialEq, Eq, Structural)]
pub struct GpuClockConstraints {
    pub range_min_mhz: u32,
    pub range_max_mhz: u32,
}

impl GpuClockConstraints {
    /// Whether the device accepts `mhz`.
    pub open spec fn admits(self, mhz: u32) -> bool {
        self.range_min_mhz <= mhz <= self.range_max_mhz
    }
}

/// Why a clock is refused.
pub open spec fn clock_outside(
    which: Seq<char>,
    mhz: u32,
    constraints: GpuClockConstraints,
) -> Seq<char> {
    "gpu clock "@ + which + " "@ + text::dec(mhz as nat)
        + " MHz is outside the device's supported range ("@ + text::dec(constraints.range_min_mhz as nat)
        + "..="@ + text::dec(constraints.range_max_mhz as nat) + " MHz)"@
}

impl GpuClockRange {
    /// What is wrong with the range on a device with these limits.
    pub open spec fn defect(self, constraints: GpuClockConstraints) -> Option<Seq<char>> {
        if self.min_mhz >= self.max_mhz {
            Some(
                "gpu clock range min ("@ + text::dec(self.min_mhz as nat)
                    + " MHz) must be strictly less than max ("@ + text::dec(self.max_mhz as nat)
                    + " MHz)"@,
            )
        } else if !constraints.admits(self.min_mhz) {
            Some(clock_outside("min"@, self.min_mhz, constraints))
        } else if !constraints.admits(self.max_mhz) {
            Some(clock_outside("max"@, self.max_mhz, constraints))
        } else {
            None
        }
    }

    /// Refuse an empty range, and one that leaves the device's own.
    pub fn validate_against(&self, constraints: &GpuClockConstraints) -> (r: Result<(), HpdError>)
        ensures
            error::refuses(r, self.defect(*constraints)),
            r is Ok <==> constraints.range_min_mhz <= self.min_mhz < self.max_mhz
                <= constraints.range_max_mhz,
    {
        if self.min_mhz >= self.max_mhz {
            let mut s = "gpu clock range min (".to_owned();
            push_dec(&mut s, self.min_mhz as u64);
            s.append(" MHz) must be strictly less than max (");
            push_dec(&mut s, self.max_mhz as u64);
            s.append(" MHz)");
            return Err(violation(s));
        }
        if self.min_mhz < constraints.range_min_mhz || self.min_mhz > constraints.range_max_mhz {
            return Err(violation(outside_text("min", self.min_mhz, constraints)));
        }
        if self.max_mhz < constraints.range_min_mhz || self.max_mhz > constraints.range_max_mhz {
            return Err(violation(outside_text("max", self.max_mhz, constraints)));
        }
        Ok(())
    }
}

fn outside_text(which: &str, mhz: u32, constraints: &GpuClockConstraints) -> (r: String)
    ensures
        r@ == clock_outside(which@, mhz, *constraints),
{
    let mut s = "gpu clock ".to_owned();
    s.append(which);
    s.append(" ");
    push_dec(&mut s, mhz as u64);
    s.append(" MHz is outside the device's supported range (");
    push_dec(&mut s, constraints.range_min_mhz as u64);
    s.append("..=");
    push_dec(&mut s, constraints.range_max_mhz as u64);
    s.append(" MHz)");
    s
}

/// What the GPU clock is held to: the range of a performance tier, or a range
/// of its own.
#[derive(Debug, Clone, Copy, PartialEq, Eq, Structural)]
pub enum GpuClockSelection {
    Preset(FanCurvePreset),
    Custom(GpuClockRange),
}

/// Control of the GPU clock range.
pub trait GpuClockRangeControl: Send + Sync {
    /// Hold the clock to a range.
    fn set_range(&self, range: &GpuClockRange) -> Result<(), HpdError>;

    /// Hand the clock back to the firmware.
    fn reset_to_auto(&self) -> Result<(), HpdError>;

    /// The range that the clock is held to; nothing where the firmware is in
    /// charge.
    fn active_range(&self) -> Result<Option<GpuClockRange>, HpdError>;

    /// The clocks that the device accepts.
    fn constraints(&self) -> Result<GpuClockConstraints, HpdError>;
}

/// A range is accepted exactly where its bounds are in order and both lie among the clocks
/// of the device, so a part of an accepted range is accepted unless it is empty.
pub proof fn accepted_ranges_lie_in_the_device(
    range: GpuClockRange,
    part: GpuClockRange,
    constraints: GpuClockConstraints,
)
    ensures
        range.defect(constraints) is None <==> constraints.range_min_mhz <= range.min_mhz
            && range.min_mhz < range.max_mhz && range.max_mhz <= constraints.range_max_mhz,
        range.defect(constraints) is None && range.min_mhz <= part.min_mhz < part.max_mhz
            <= range.max_mhz ==> part.defect(constraints) is None,
{
}

} // verus!
