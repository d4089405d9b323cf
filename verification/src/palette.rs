//! The colour table that content entries index.

use vstd::prelude::*;
use crate::model::PALETTE_LEN;

verus! {

/// The 32 colours, as `0xRRGGBB`, that a ledger starts with.
pub open spec fn default_palette_colors() -> Seq<u32> {
    seq![
        0x000000u32, 0x222034u32, 0x45283Cu32, 0x663931u32,
        0x8F563Bu32, 0xDF7126u32, 0xD9A066u32, 0xEEC39Au32,
        0xFBF236u32, 0x99E550u32, 0x6ABE30u32, 0x37946Eu32,
        0x4B692Fu32, 0x524B24u32, 0x323C39u32, 0x3F3F74u32,
        0x306082u32, 0x5B6EE1u32, 0x639BFFu32, 0x5FCDE4u32,
        0xCBDBFCu32, 0xFFFFFFu32, 0x9BADB7u32, 0x847E87u32,
        0x696A6Au32, 0x595652u32, 0x76428Au32, 0xAC3232u32,
        0xD95763u32, 0xD77BBAu32, 0x8F974Au32, 0x8A6F30u32,
    ]
}

/// The palette a ledger starts with.
pub fn default_palette() -> (palette: Vec<u32>)
    ensures
        palette@ == default_palette_colors(),
        palette@.len() == PALETTE_LEN,
{
    let palette: Vec<u32> = vec![
        0x000000u32, 0x222034u32, 0x45283Cu32, 0x663931u32,
        0x8F563Bu32, 0xDF7126u32, 0xD9A066u32, 0xEEC39Au32,
        0xFBF236u32, 0x99E550u32, 0x6ABE30u32, 0x37946Eu32,
        0x4B692Fu32, 0x524B24u32, 0x323C39u32, 0x3F3F74u32,
        0x306082u32, 0x5B6EE1u32, 0x639BFFu32, 0x5FCDE4u32,
        0xCBDBFCu32, 0xFFFFFFu32, 0x9BADB7u32, 0x847E87u32,
        0x696A6Au32, 0x595652u32, 0x76428Au32, 0xAC3232u32,
        0xD95763u32, 0xD77BBAu32, 0x8F974Au32, 0x8A6F30u32,
    ];
    assert(palette@ =~= default_palette_colors());
    palette
}

} // verus!
