//! The ACPI platform profile.

use crate::error::HpdError;
use crate::profile::ProfileName;
use vstd::prelude::*;

verus! {

/// Control of the ACPI platform profile.
pub trait PlatformProfile: Send + Sync {
    /// The profile that the firmware is in.
    fn get_active_profile(&self) -> Result<ProfileName, HpdError>;

    /// Switch to a profile.
    fn set_active_profile(&self, profile: &ProfileName) -> Result<(), HpdError>;
}

} // verus!
