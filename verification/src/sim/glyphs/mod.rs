//! Eight by eight glyphs of the printable ascii characters.
use crate::sim::Bitmap;
use vstd::prelude::*;

verus! {

pub const CHARACTER_WIDTH: usize = 8;

pub const CHARACTER_HEIGHT: usize = 8;

/// The glyph of `c` from a font table: the table `ascii` holds eight bytes a
/// character from the space (32) on, and `unknown` is the glyph of the
/// characters below the space.
pub fn bitmap_from_char(c: char, ascii: &[u8], unknown: &[u8]) -> (b: Bitmap)
    requires
        (c as u32) >= 32 ==> ((c as u32) - 32) * 8 + 8 <= ascii@.len(),
    ensures
        b.width == 8,
        b.height == 8,
        (c as u32) >= 32 ==> b.data@ == ascii@.subrange(((c as u32) - 32) * 8, ((c as u32) - 32) * 8 + 8),
        (c as u32) < 32 ==> b.data@ == unknown@,
{
    let keycode = c as u32 as usize;
    if keycode >= 32 {
        let start = (keycode - 32) * CHARACTER_HEIGHT;
        let end = start + CHARACTER_HEIGHT;
        Bitmap::new(CHARACTER_WIDTH as i32, CHARACTER_HEIGHT as i32, &ascii[start..end])
    } else {
        Bitmap::new(CHARACTER_WIDTH as i32, CHARACTER_HEIGHT as i32, unknown)
    }
}

} // verus!
