//! Which ASUS handheld this is.

use crate::probe::DmiInfo;
use crate::text;
use vstd::prelude::*;

verus! {

/// The ASUS handhelds that are known.
#[derive(Debug, Clone, Copy, PartialEq, Eq, Structural)]
pub enum AsusModel {
    RogAlly,
    RogAllyX,
    RogXboxAllyX,
}

/// The model with this board name.
pub open spec fn model_of_board(board: Seq<char>) -> Option<AsusModel> {
    if board == "RC71L"@ {
        Some(AsusModel::RogAlly)
    } else if board == "RC72L"@ || board == "RC72LA"@ {
        Some(AsusModel::RogAllyX)
    } else if board == "RC73XA"@ {
        Some(AsusModel::RogXboxAllyX)
    } else {
        None
    }
}

/// The ASUS handheld that the firmware describes. The vendor is compared
/// without regard to letter case, the board name without white space around it.
pub fn matches_asus_handheld(dmi: &DmiInfo) -> (r: Option<AsusModel>)
    ensures
        r == (if text::ascii_lower(dmi.board_vendor@) == text::ascii_lower(
            "ASUSTeK COMPUTER INC."@,
        ) {
            model_of_board(text::trimmed(dmi.board_name@))
        } else {
            None
        }),
{
    if !text::same_ignoring_ascii_case(dmi.board_vendor.as_str(), "ASUSTeK COMPUTER INC.") {
        return None;
    }
    let board = text::trim(dmi.board_name.as_str());
    if text::same(board, "RC71L") {
        Some(AsusModel::RogAlly)
    } else if text::same(board, "RC72L") || text::same(board, "RC72LA") {
        Some(AsusModel::RogAllyX)
    } else if text::same(board, "RC73XA") {
        Some(AsusModel::RogXboxAllyX)
    } else {
        None
    }
}

/// A handheld is known by its vendor, in whatever letters, and by its board: each board name
/// stands for one model.
pub proof fn models_are_known_by_their_boards(dmi: DmiInfo, r: Option<AsusModel>)
    requires
        call_ensures(matches_asus_handheld, (&dmi,), r),
        text::ascii_lower(dmi.board_vendor@) == text::ascii_lower("ASUSTeK COMPUTER INC."@),
    ensures
        r == Some(AsusModel::RogAlly) <==> text::trimmed(dmi.board_name@) == "RC71L"@,
        r == Some(AsusModel::RogAllyX) <==> text::trimmed(dmi.board_name@) == "RC72L"@
            || text::trimmed(dmi.board_name@) == "RC72LA"@,
        r == Some(AsusModel::RogXboxAllyX) <==> text::trimmed(dmi.board_name@) == "RC73XA"@,
{
    reveal_strlit("RC71L");
    reveal_strlit("RC72L");
    reveal_strlit("RC72LA");
    reveal_strlit("RC73XA");
    assert("RC71L"@[3] == '1' && "RC72L"@[3] == '2' && "RC72LA"@[3] == '2' && "RC73XA"@[3] == '3');
    assert("RC71L"@.len() == 5 && "RC72L"@.len() == 5 && "RC72LA"@.len() == 6);
}

/// A machine of another vendor is not taken for one of these.
pub proof fn other_vendors_are_not_taken(dmi: DmiInfo, r: Option<AsusModel>)
    requires
        call_ensures(matches_asus_handheld, (&dmi,), r),
        text::ascii_lower(dmi.board_vendor@) != text::ascii_lower("ASUSTeK COMPUTER INC."@),
    ensures
        r is None,
{
}

} // verus!
