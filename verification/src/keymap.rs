//! The key layout: which character each pitch plays, and whether that
//! character needs the shift modifier.

use vstd::prelude::*;
use vstd::string::StrSliceExecFns;

verus! {

/// The pitch played by the first entry of the layout.
pub const BASE_PITCH: u8 = 36;

/// The number of entries of the layout.
pub const LAYOUT_LEN: usize = 61;

/// The layout: entry `i` is the character played by pitch `BASE_PITCH + i`.
pub open spec fn layout() -> Seq<char> {
    "1!2@34$5%6^78*9(0qQwWeErtTyYuiIoOpPasSdDfgGhHjJklLzZxcCvVbBnm"@
}

/// The symbols that are typed with the shift modifier held.
pub open spec fn shifted_symbols() -> Seq<char> {
    "!@#$%^&*()"@
}

/// The character that `pitch` plays, if the layout has one for it.
pub open spec fn mapped_key(pitch: u8) -> Option<char> {
    if BASE_PITCH <= pitch && pitch - BASE_PITCH < layout().len() {
        Some(layout()[pitch - BASE_PITCH])
    } else {
        None
    }
}

/// Whether `key` is typed with the shift modifier held: an upper-case letter
/// or one of the shifted symbols.
pub open spec fn needs_shift(key: char) -> bool {
    ('A' <= key && key <= 'Z') || shifted_symbols().contains(key)
}

/// The layout has `LAYOUT_LEN` entries.
pub proof fn lemma_layout_len()
    ensures
        layout().len() == LAYOUT_LEN,
{
    reveal_strlit("1!2@34$5%6^78*9(0qQwWeErtTyYuiIoOpPasSdDfgGhHjJklLzZxcCvVbBnm");
}

/// Looks up the character that `pitch` plays. A pitch below the layout's
/// first entry or beyond its last has none.
pub fn key_for_pitch(pitch: u8) -> (key: Option<char>)
    ensures
        key == mapped_key(pitch),
{
    proof {
        lemma_layout_len();
    }
    if pitch < BASE_PITCH {
        return None;
    }
    let index: usize = (pitch - BASE_PITCH) as usize;
    if index < LAYOUT_LEN {
        Some("1!2@34$5%6^78*9(0qQwWeErtTyYuiIoOpPasSdDfgGhHjJklLzZxcCvVbBnm".get_char(index))
    } else {
        None
    }
}

/// Decides whether `key` is typed with the shift modifier held.
pub fn requires_shift(key: char) -> (shifted: bool)
    ensures
        shifted == needs_shift(key),
{
    proof {
        reveal_strlit("!@#$%^&*()");
    }
    let symbols = "!@#$%^&*()";
    let mut found = false;
    let mut i: usize = 0;
    while i < 10
        invariant
            i <= 10,
            symbols@ == shifted_symbols(),
            symbols@.len() == 10,
            found == exists|j: int| 0 <= j < i && symbols@[j] == key,
        decreases 10 - i,
    {
        if symbols.get_char(i) == key {
            found = true;
        }
        i += 1;
    }
    ('A' <= key && key <= 'Z') || found
}

} // verus!
