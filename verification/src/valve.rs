//! The Valve Steam Deck backend: the device is recognised, its power envelope
//! is not programmed yet.

use crate::error::{BackendError, HpdError};
use crate::power::{PowerEnvelope, PowerEnvelopeLimits, PowerEnvelopeTarget};
use crate::probe::DmiInfo;
use crate::sysfs::SysfsIo;
use crate::text;
use vstd::prelude::*;

verus! {

/// The Valve handhelds that are known.
#[derive(Debug, Clone, Copy, PartialEq, Eq, Structural)]
pub enum ValveModel {
    SteamDeckLcd,
    SteamDeckOled,
}

/// The Steam Deck with this product name.
pub open spec fn model_of_product(product: Seq<char>) -> Option<ValveModel> {
    if product == "Jupiter"@ {
        Some(ValveModel::SteamDeckLcd)
    } else if product == "Galileo"@ {
        Some(ValveModel::SteamDeckOled)
    } else {
        None
    }
}

/// The Steam Deck that the firmware describes. The vendor is compared without
/// regard to letter case.
pub fn matches_valve_handheld(dmi: &DmiInfo) -> (r: Option<ValveModel>)
    ensures
        r == (if text::ascii_lower(dmi.board_vendor@) == text::ascii_lower("Valve"@) {
            model_of_product(dmi.product_name@)
        } else {
            None
        }),
{
    if !text::same_ignoring_ascii_case(dmi.board_vendor.as_str(), "Valve") {
        return None;
    }
    if text::same(dmi.product_name.as_str(), "Jupiter") {
        Some(ValveModel::SteamDeckLcd)
    } else if text::same(dmi.product_name.as_str(), "Galileo") {
        Some(ValveModel::SteamDeckOled)
    } else {
        None
    }
}

/// The power envelope of a Valve handheld.
pub struct ValvePowerBackend<S: SysfsIo> {
    pub sysfs: S,
}

impl<S: SysfsIo> ValvePowerBackend<S> {
    pub fn new(sysfs: S) -> (r: Self)
        ensures
            r.sysfs == sysfs,
    {
        ValvePowerBackend { sysfs }
    }
}

impl<S: SysfsIo> PowerEnvelope for ValvePowerBackend<S> {
    fn get_limits(&self) -> (r: Result<PowerEnvelopeLimits, HpdError>)
        ensures
            r matches Err(HpdError::Backend(BackendError::Other(words))) && words@
                == "Valve limits implementation pending. See docs/devices/valve.md"@,
    {
        Err(
            HpdError::Backend(
                BackendError::Other(
                    "Valve limits implementation pending. See docs/devices/valve.md".to_owned(),
                ),
            ),
        )
    }

    fn get_target(&self) -> (r: Result<PowerEnvelopeTarget, HpdError>)
        ensures
            r == Err::<PowerEnvelopeTarget, HpdError>(HpdError::FeatureUnsupported),
    {
        Err(HpdError::FeatureUnsupported)
    }

    fn set_target(&self, target: &PowerEnvelopeTarget) -> (r: Result<(), HpdError>)
        ensures
            r == Err::<(), HpdError>(HpdError::FeatureUnsupported),
    {
        Err(HpdError::FeatureUnsupported)
    }
}

/// A Steam Deck is known by its vendor, in whatever letters, and by its product name: Jupiter
/// has the LCD and Galileo the OLED.
pub proof fn known_by_the_product_name(dmi: DmiInfo, r: Option<ValveModel>)
    requires
        call_ensures(matches_valve_handheld, (&dmi,), r),
    ensures
        ({
            let vendor = text::ascii_lower(dmi.board_vendor@) == text::ascii_lower("Valve"@);
            &&& r == Some(ValveModel::SteamDeckLcd) <==> vendor && dmi.product_name@ == "Jupiter"@
            &&& r == Some(ValveModel::SteamDeckOled) <==> vendor && dmi.product_name@ == "Galileo"@
        }),
{
    reveal_strlit("Jupiter");
    reveal_strlit("Galileo");
    assert("Jupiter"@[0] == 'J' && "Galileo"@[0] == 'G');
}

} // verus!
