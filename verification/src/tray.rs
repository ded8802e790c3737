//! The texts of the icon in the notification area.
use crate::text;
use crate::text::utf16_of;
use vstd::prelude::*;

verus! {

/// The text that the icon shows at first: the name of the program.
pub const DEFAULT_TIP: &'static str =
    "\u{660e}\u{65e5}\u{65b9}\u{821f}\u{8d39}\u{7528}\u{6761}\u{5c3a}\u{5b50}";

/// A text of at most 64 characters; a longer one ends in an ellipsis.
pub open spec fn shortened(value: Seq<char>) -> Seq<char> {
    if value.len() <= 64 {
        value
    } else {
        value.take(63).push('\u{2026}')
    }
}

pub fn truncate_menu_text(value: &str) -> (r: String)
    ensures
        r@ == shortened(value@),
{
    let chars = text::to_chars(value);
    if chars.len() <= 64 {
        return value.to_owned();
    }
    let mut r = text::from_char_range(&chars, 0, 63);
    r.push('\u{2026}');
    assert(r@ =~= shortened(value@));
    r
}

/// The 128 units that the icon takes: the text in UTF-16 as far as 127 units hold it, and zeros.
pub open spec fn tip_units(status: Seq<char>) -> Seq<u16> {
    let units = utf16_of(shortened(status));
    Seq::new(
        128,
        |i: int|
            if i < units.len() && i < 127 {
                units[i]
            } else {
                0
            },
    )
}

pub fn tooltip_text(status: &str) -> (units: Vec<u16>)
    ensures
        units@ == tip_units(status@),
{
    let all = text::encode_utf16(&truncate_menu_text(status));
    let ghost want = tip_units(status@);
    let mut units: Vec<u16> = Vec::new();
    while units.len() < 128
        invariant
            units@.len() <= 128,
            want == tip_units(status@),
            all@ == utf16_of(shortened(status@)),
            units@ == want.take(units@.len() as int),
        decreases 128 - units@.len(),
    {
        let i: usize = units.len();
        let unit: u16 = if i < all.len() && i < 127 {
            all[i]
        } else {
            0
        };
        units.push(unit);
        assert(units@ =~= want.take(i as int + 1));
    }
    assert(want.take(128) =~= want);
    units
}

/// The text of the icon always ends within its units.
pub proof fn law_tip_is_terminated(status: Seq<char>)
    ensures
        tip_units(status).len() == 128,
        tip_units(status)[127] == 0,
        shortened(status).len() <= 64,
{
}

/// A text that fits is shown as it is; a longer one keeps its start and ends in an ellipsis.
pub proof fn law_long_texts_keep_their_start(value: Seq<char>, i: int)
    requires
        0 <= i < 63,
        i < value.len(),
    ensures
        value.len() <= 64 ==> shortened(value) == value,
        value.len() > 64 ==> shortened(value).len() == 64 && shortened(value).last() == '\u{2026}',
        shortened(value)[i] == value[i],
{
}

/// The units that the icon takes are those of its text, one by one.
pub proof fn law_tip_units_are_those_of_the_text(status: Seq<char>, i: int)
    requires
        0 <= i < 127,
    ensures
        i < utf16_of(shortened(status)).len() ==> tip_units(status)[i] == utf16_of(
            shortened(status),
        )[i],
        i >= utf16_of(shortened(status)).len() ==> tip_units(status)[i] == 0,
{
}

} // verus!
