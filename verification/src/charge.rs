//! Battery charge control.

use crate::error::HpdError;
use vstd::prelude::*;

verus! {

/// The lowest charge limit that may be set, in percent.
pub const MIN_CHARGE_THRESHOLD: u8 = 20;

/// The highest charge limit that may be set, in percent.
pub const MAX_CHARGE_THRESHOLD: u8 = 100;

/// The charge limit of a fresh install, in percent.
pub const DEFAULT_CHARGE_THRESHOLD: u8 = 80;

/// Whether `threshold` may be set as a charge limit.
pub open spec fn chargeable(threshold: u8) -> bool {
    MIN_CHARGE_THRESHOLD <= threshold <= MAX_CHARGE_THRESHOLD
}

/// Control of battery charging.
pub trait ChargeControl: Send + Sync {
    /// Whether the charger is plugged in.
    fn is_ac_connected(&self) -> Result<bool, HpdError>;

    /// Stop charging at `threshold` percent.
    fn set_end_threshold(&self, threshold: u8) -> Result<(), HpdError>;

    /// The percentage at which charging stops.
    fn get_end_threshold(&self) -> Result<u8, HpdError>;
}

} // verus!
