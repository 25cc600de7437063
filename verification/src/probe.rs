//! What the firmware says of the machine.

use crate::error::SysfsError;
use crate::sysfs;
use crate::sysfs::SysfsIo;
use crate::text;
use vstd::prelude::*;

verus! {

pub const BOARD_VENDOR: &'static str = "/sys/class/dmi/id/board_vendor";

pub const BOARD_NAME: &'static str = "/sys/class/dmi/id/board_name";

pub const PRODUCT_NAME: &'static str = "/sys/class/dmi/id/product_name";

/// The DMI strings that tell handhelds apart.
#[derive(Debug)]
pub struct DmiInfo {
    pub board_vendor: String,
    pub board_name: String,
    pub product_name: String,
}

impl Clone for DmiInfo {
    fn clone(&self) -> (r: Self)
        ensures
            r == *self,
    {
        DmiInfo {
            board_vendor: self.board_vendor.clone(),
            board_name: self.board_name.clone(),
            product_name: self.product_name.clone(),
        }
    }
}

/// Whether a DMI string was read as `r`: without white space around it, and
/// `Unknown` where it cannot be read.
pub open spec fn dmi_gave<S: SysfsIo>(s: &S, path: Seq<char>, r: Seq<char>) -> bool {
    exists|raw: Result<String, SysfsError>| #[trigger]
        sysfs::read_gave(s, path, raw) && r == (match raw {
            Ok(t) => text::trimmed(t@),
            Err(_) => "Unknown"@,
        })
}

fn read_dmi<S: SysfsIo>(s: &S, path: &str) -> (r: String)
    ensures
        dmi_gave(s, path@, r@),
{
    let raw = sysfs::read(s, path);
    let ghost read = raw;
    assert(sysfs::read_gave(s, path@, read));
    match raw {
        Ok(t) => text::trim(t.as_str()).to_owned(),
        Err(_) => "Unknown".to_owned(),
    }
}

/// What the firmware says of the machine; a made-up handheld where the hardware
/// is simulated.
pub fn read_system_dmi<S: SysfsIo>(s: &S, simulated: bool) -> (r: DmiInfo)
    ensures
        simulated ==> r.board_vendor@ == "ASUSTeK COMPUTER INC."@ && r.board_name@ == "RC73XA"@
            && r.product_name@ == "ROG Ally X (Simulator)"@,
        !simulated ==> dmi_gave(s, BOARD_VENDOR@, r.board_vendor@) && dmi_gave(
            s,
            BOARD_NAME@,
            r.board_name@,
        ) && dmi_gave(s, PRODUCT_NAME@, r.product_name@),
{
    if simulated {
        return DmiInfo {
            board_vendor: "ASUSTeK COMPUTER INC.".to_owned(),
            board_name: "RC73XA".to_owned(),
            product_name: "ROG Ally X (Simulator)".to_owned(),
        };
    }
    DmiInfo {
        board_vendor: read_dmi(s, BOARD_VENDOR),
        board_name: read_dmi(s, BOARD_NAME),
        product_name: read_dmi(s, PRODUCT_NAME),
    }
}

/// Whether the firmware's file at `path` told `r`, or could not be read and `r` says so.
pub open spec fn firmware_said<S: SysfsIo>(s: &S, path: Seq<char>, r: Seq<char>) -> bool {
    exists|raw: Result<String, SysfsError>| #[trigger]
        sysfs::read_gave(s, path, raw) && (raw is Ok ==> r == text::trimmed(raw->Ok_0@)) && (raw is Err
            ==> r == "Unknown"@)
}

/// Each string comes from its own file of the firmware.
pub proof fn strings_come_from_their_files<S: SysfsIo>(s: &S, r: DmiInfo)
    requires
        call_ensures(read_system_dmi::<S>, (s, false), r),
    ensures
        firmware_said(s, "/sys/class/dmi/id/board_vendor"@, r.board_vendor@),
        firmware_said(s, "/sys/class/dmi/id/board_name"@, r.board_name@),
        firmware_said(s, "/sys/class/dmi/id/product_name"@, r.product_name@),
{
    lemma_said(s, BOARD_VENDOR@, r.board_vendor@);
    lemma_said(s, BOARD_NAME@, r.board_name@);
    lemma_said(s, PRODUCT_NAME@, r.product_name@);
}

proof fn lemma_said<S: SysfsIo>(s: &S, path: Seq<char>, r: Seq<char>)
    requires
        dmi_gave(s, path, r),
    ensures
        firmware_said(s, path, r),
{
}

} // verus!
