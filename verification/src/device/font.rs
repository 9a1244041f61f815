//! A 5x7 bitmap font for the LCD: space, minus, hash, digits and letters
//! (lower case drawn as upper case); anything else draws blank.
use vstd::prelude::*;

verus! {

/// Glyph width in pixels.
pub const GLYPH_W: usize = 5;

/// Glyph height in pixels.
pub const GLYPH_H: usize = 7;

/// Rows of every glyph, top row first, bit 4 the leftmost pixel: blank,
/// '-', '#', '0'..'9', 'A'..'Z'.
pub const FONT: [u8; 273] = [
    0x00, 0x00, 0x00, 0x00, 0x00, 0x00, 0x00,
    0x00, 0x00, 0x00, 0x1f, 0x00, 0x00, 0x00,
    0x0a, 0x0a, 0x1f, 0x0a, 0x1f, 0x0a, 0x0a,
    0x0e, 0x11, 0x13, 0x15, 0x19, 0x11, 0x0e,
    0x04, 0x0c, 0x04, 0x04, 0x04, 0x04, 0x0e,
    0x0e, 0x11, 0x01, 0x02, 0x04, 0x08, 0x1f,
    0x1f, 0x02, 0x04, 0x02, 0x01, 0x11, 0x0e,
    0x02, 0x06, 0x0a, 0x12, 0x1f, 0x02, 0x02,
    0x1f, 0x10, 0x1e, 0x01, 0x01, 0x11, 0x0e,
    0x06, 0x08, 0x10, 0x1e, 0x11, 0x11, 0x0e,
    0x1f, 0x01, 0x02, 0x04, 0x08, 0x08, 0x08,
    0x0e, 0x11, 0x11, 0x0e, 0x11, 0x11, 0x0e,
    0x0e, 0x11, 0x11, 0x0f, 0x01, 0x02, 0x0c,
    0x0e, 0x11, 0x11, 0x1f, 0x11, 0x11, 0x11,
    0x1e, 0x11, 0x11, 0x1e, 0x11, 0x11, 0x1e,
    0x0e, 0x11, 0x10, 0x10, 0x10, 0x11, 0x0e,
    0x1c, 0x12, 0x11, 0x11, 0x11, 0x12, 0x1c,
    0x1f, 0x10, 0x10, 0x1e, 0x10, 0x10, 0x1f,
    0x1f, 0x10, 0x10, 0x1e, 0x10, 0x10, 0x10,
    0x0e, 0x11, 0x10, 0x17, 0x11, 0x11, 0x0f,
    0x11, 0x11, 0x11, 0x1f, 0x11, 0x11, 0x11,
    0x0e, 0x04, 0x04, 0x04, 0x04, 0x04, 0x0e,
    0x07, 0x02, 0x02, 0x02, 0x02, 0x12, 0x0c,
    0x11, 0x12, 0x14, 0x18, 0x14, 0x12, 0x11,
    0x10, 0x10, 0x10, 0x10, 0x10, 0x10, 0x1f,
    0x11, 0x1b, 0x15, 0x15, 0x11, 0x11, 0x11,
    0x11, 0x11, 0x19, 0x15, 0x13, 0x11, 0x11,
    0x0e, 0x11, 0x11, 0x11, 0x11, 0x11, 0x0e,
    0x1e, 0x11, 0x11, 0x1e, 0x10, 0x10, 0x10,
    0x0e, 0x11, 0x11, 0x11, 0x15, 0x12, 0x0d,
    0x1e, 0x11, 0x11, 0x1e, 0x14, 0x12, 0x11,
    0x0f, 0x10, 0x10, 0x0e, 0x01, 0x01, 0x1e,
    0x1f, 0x04, 0x04, 0x04, 0x04, 0x04, 0x04,
    0x11, 0x11, 0x11, 0x11, 0x11, 0x11, 0x0e,
    0x11, 0x11, 0x11, 0x11, 0x11, 0x0a, 0x04,
    0x11, 0x11, 0x11, 0x15, 0x15, 0x15, 0x0a,
    0x11, 0x11, 0x0a, 0x04, 0x0a, 0x11, 0x11,
    0x11, 0x11, 0x11, 0x0a, 0x04, 0x04, 0x04,
    0x1f, 0x01, 0x02, 0x04, 0x08, 0x10, 0x1f,
];

/// The glyph a character draws with.
pub open spec fn glyph_index(c: char) -> int {
    let u = c as int;
    if 65 <= u <= 90 {
        u - 65 + 13
    } else if 97 <= u <= 122 {
        u - 97 + 13
    } else if 48 <= u <= 57 {
        u - 48 + 3
    } else if u == 45 {
        1
    } else if u == 35 {
        2
    } else {
        0
    }
}

/// Row `r` of the glyph for `c`.
pub open spec fn glyph_row(c: char, r: int) -> u8 {
    FONT@[glyph_index(c) * 7 + r]
}

/// The rows of the glyph for `c`.
pub fn glyph(c: char) -> (r: [u8; 7])
    ensures
        forall|i: int| 0 <= i < 7 ==> #[trigger] r@[i] == glyph_row(c, i),
        forall|i: int| 0 <= i < 7 ==> #[trigger] r@[i] < 32,
{
    let u = c as u32;
    let ix: usize = if 65 <= u && u <= 90 {
        (u - 65 + 13) as usize
    } else if 97 <= u && u <= 122 {
        (u - 97 + 13) as usize
    } else if 48 <= u && u <= 57 {
        (u - 48 + 3) as usize
    } else if u == 45 {
        1
    } else if u == 35 {
        2
    } else {
        0
    };
    assert(forall|i: int| 0 <= i < 273 ==> #[trigger] FONT@[i] < 32);
    let base = ix * 7;
    [FONT[base], FONT[base + 1], FONT[base + 2], FONT[base + 3], FONT[base + 4], FONT[base + 5], FONT[base + 6]]
}

} // verus!
