//! The Lenovo Legion Go backend: the device is recognised, its power envelope
//! is not programmed yet.

use crate::error::{BackendError, HpdError};
use crate::power::{PowerEnvelope, PowerEnvelopeLimits, PowerEnvelopeTarget};
use crate::probe::DmiInfo;
use crate::sysfs::SysfsIo;
use crate::text;
use vstd::prelude::*;

verus! {

/// The Lenovo handhelds that are known.
#[derive(Debug, Clone, Copy, PartialEq, Eq, Structural)]
pub enum LenovoModel {
    LegionGo,
    LegionGoS,
}

/// The Lenovo handheld that the firmware describes: machine type 83E1, in the
/// product or the board name. The vendor is compared without regard to letter
/// case.
pub fn matches_lenovo_handheld(dmi: &DmiInfo) -> (r: Option<LenovoModel>)
    ensures
        r == (if text::ascii_lower(dmi.board_vendor@) == text::ascii_lower("LENOVO"@) && (
        text::has_substring(dmi.product_name@, "83E1"@) || text::has_substring(
            dmi.board_name@,
            "83E1"@,
        )) {
            Some(LenovoModel::LegionGo)
        } else {
            None
        }),
{
    if !text::same_ignoring_ascii_case(dmi.board_vendor.as_str(), "LENOVO") {
        return None;
    }
    if text::contains(dmi.product_name.as_str(), "83E1") || text::contains(
        dmi.board_name.as_str(),
        "83E1",
    ) {
        return Some(LenovoModel::LegionGo);
    }
    None
}

/// The power envelope of a Lenovo handheld.
pub struct LenovoPowerBackend<S: SysfsIo> {
    pub sysfs: S,
}

impl<S: SysfsIo> LenovoPowerBackend<S> {
    pub fn new(sysfs: S) -> (r: Self)
        ensures
            r.sysfs == sysfs,
    {
        LenovoPowerBackend { sysfs }
    }
}

impl<S: SysfsIo> PowerEnvelope for LenovoPowerBackend<S> {
    fn get_limits(&self) -> (r: Result<PowerEnvelopeLimits, HpdError>)
        ensures
            r matches Err(HpdError::Backend(BackendError::Other(words))) && words@
                == "Lenovo limits implementation pending. See docs/devices/lenovo.md"@,
    {
        Err(
            HpdError::Backend(
                BackendError::Other(
                    "Lenovo limits implementation pending. See docs/devices/lenovo.md".to_owned(),
                ),
            ),
        )
    }

    fn get_target(&self) -> (r: Result<PowerEnvelopeTarget, HpdError>)
        ensures
            r == Err::<PowerEnvelopeTarget, HpdError>(HpdError::FeatureUnsupported),
    {
        Err(HpdError::FeatureUnsupported)
    }

    fn set_target(&self, target: &PowerEnvelopeTarget) -> (r: Result<(), HpdError>)
        ensures
            r == Err::<(), HpdError>(HpdError::FeatureUnsupported),
    {
        Err(HpdError::FeatureUnsupported)
    }
}

/// A Legion Go is known by its vendor, in whatever letters, and by its machine type, wherever
/// the firmware puts it; nothing else is taken for one.
pub proof fn known_by_the_machine_type(dmi: DmiInfo, r: Option<LenovoModel>)
    requires
        call_ensures(matches_lenovo_handheld, (&dmi,), r),
    ensures
        r is Some <==> text::ascii_lower(dmi.board_vendor@) == text::ascii_lower("LENOVO"@) && (
        text::has_substring(dmi.product_name@, "83E1"@) || text::has_substring(
            dmi.board_name@,
            "83E1"@,
        )),
        r matches Some(model) ==> model == LenovoModel::LegionGo,
{
}

} // verus!
