//! The shared LCD model.
//!
//! [`DisplayState`] is the data; [`Lcd`] is a 128x64 1-bpp framebuffer
//! matching a cheap SSD1306 OLED. [`render`] rasterises one into the other.
//! Firmware ships the same bytes to the panel; the simulator draws the same
//! pixels on screen.
use crate::device::font::{glyph, glyph_row, GLYPH_W};
use crate::music::arrangement::{spec_label, Codename, Feature, Role};
use crate::Micros;
use vstd::arithmetic::power::pow;
use vstd::prelude::*;
use vstd::string::StrSliceExecFns;

verus! {

pub const LCD_WIDTH: usize = 128;

pub const LCD_HEIGHT: usize = 64;

/// Bytes per framebuffer row.
pub const STRIDE: usize = LCD_WIDTH / 8;

/// Everything the LCD shows, captured from a device.
#[derive(Clone, Copy, Debug, PartialEq, Eq)]
pub struct DisplayState {
    pub node_id: u32,
    pub playing: bool,
    pub bpm_milli: u32,
    /// This box's job in the band.
    pub role: Role,
    /// Every lane this box plays, one bit per role.
    pub role_mask: u8,
    /// The lane allowed a foreground flourish this phrase.
    pub spotlight: Role,
    pub phrase: i64,
    /// The roster member whose card the phrase drew.
    pub selector: u64,
    /// Coined name of the current arrangement combination.
    pub codename: Codename,
    /// The arrangement coming next phrase.
    pub next_codename: Codename,
    pub bars_to_next: u8,
    /// Thousandths of a beat until the next phrase boundary.
    pub beats_to_next_milli: u32,
    /// The variation arriving at that boundary.
    pub next_feature: Feature,
    pub peers: u8,
    pub sync_error_us: Micros,
    /// Position within the current bar, 0..1000.
    pub beat_phase_milli: u16,
}

/// A 1-bit-per-pixel 128x64 framebuffer, row-major, most significant bit
/// leftmost.
#[derive(Clone)]
pub struct Lcd {
    pixels: [u8; 1024],
}

/// The pixel lies on the screen.
pub open spec fn on_screen(x: int, y: int) -> bool {
    0 <= x < 128 && 0 <= y < 64
}

/// The pixel's bit in the framebuffer bytes.
pub open spec fn bit_at(p: Seq<u8>, x: int, y: int) -> bool {
    (p[y * 16 + x / 8] >> ((7 - x % 8) as u8)) & 1 == 1
}

/// The pixel lies in the `w` by `h` rectangle at (`rx`, `ry`).
pub open spec fn in_rect(x: int, y: int, rx: int, ry: int, w: int, h: int) -> bool {
    rx <= x < rx + w && ry <= y < ry + h
}

/// Setting or clearing bit `k` (from the left) of a byte leaves the others.
proof fn lemma_byte_bits()
    ensures
        forall|b: u8, k: u8, j: u8|
            k < 8 && j < 8 ==> #[trigger] (((b | (1u8 << (7 - k) as u8)) >> (7 - j) as u8) & 1) == if j == k {
                1u8
            } else {
                (b >> (7 - j) as u8) & 1
            },
        forall|b: u8, k: u8, j: u8|
            k < 8 && j < 8 ==> #[trigger] (((b & !(1u8 << (7 - k) as u8)) >> (7 - j) as u8) & 1) == if j == k {
                0u8
            } else {
                (b >> (7 - j) as u8) & 1
            },
        forall|j: u8| j < 8 ==> #[trigger] ((0u8 >> (7 - j) as u8) & 1) == 0,
{
    assert(forall|b: u8, k: u8, j: u8|
        k < 8 && j < 8 ==> #[trigger] (((b | (1u8 << (7 - k) as u8)) >> (7 - j) as u8) & 1) == if j == k {
            1u8
        } else {
            (b >> (7 - j) as u8) & 1
        }) by (bit_vector);
    assert(forall|b: u8, k: u8, j: u8|
        k < 8 && j < 8 ==> #[trigger] (((b & !(1u8 << (7 - k) as u8)) >> (7 - j) as u8) & 1) == if j == k {
            0u8
        } else {
            (b >> (7 - j) as u8) & 1
        }) by (bit_vector);
    assert(forall|j: u8| j < 8 ==> #[trigger] ((0u8 >> (7 - j) as u8) & 1) == 0) by (bit_vector);
}

impl Lcd {
    /// Whether the pixel is lit (off-screen pixels never are).
    pub closed spec fn lit(self, x: int, y: int) -> bool {
        on_screen(x, y) && bit_at(self.pixels@, x, y)
    }

    /// The framebuffer bytes.
    pub closed spec fn bytes(self) -> Seq<u8> {
        self.pixels@
    }

    /// The framebuffer layout: 1024 bytes, 16 to a row and 64 rows, most
    /// significant bit leftmost. Pixel (x, y) on the panel is bit `7 - x % 8`
    /// of byte `y * 16 + x / 8`; off the panel nothing is lit.
    pub proof fn lemma_layout(self)
        ensures
            self.bytes().len() == 1024,
            forall|x: int, y: int| #[trigger] self.lit(x, y) == (on_screen(x, y) && bit_at(self.bytes(), x, y)),
    {
    }

    pub fn new() -> (r: Self)
        ensures
            r.bytes() == Seq::new(1024, |i: int| 0u8),
            forall|x: int, y: int| !#[trigger] r.lit(x, y),
            forall|i: int| 0 <= i < 1024 ==> #[trigger] r.bytes()[i] == 0,
    {
        let r = Self { pixels: [0; 1024] };
        proof {
            assert(r.bytes() =~= Seq::new(1024, |i: int| 0u8));
            lemma_byte_bits();
            assert forall|x: int, y: int| !#[trigger] r.lit(x, y) by {
                if on_screen(x, y) {
                    assert(r.pixels@[y * 16 + x / 8] == 0);
                    assert(((0u8 >> (7 - (x % 8) as u8) as u8) & 1) == 0);
                }
            }
        }
        r
    }

    pub fn clear(&mut self)
        ensures
            final(self).bytes() == Seq::new(1024, |i: int| 0u8),
            forall|x: int, y: int| !#[trigger] final(self).lit(x, y),
            forall|i: int| 0 <= i < 1024 ==> #[trigger] final(self).bytes()[i] == 0,
    {
        *self = Lcd::new();
    }

    /// The framebuffer bytes, row-major.
    pub fn pixels(&self) -> (r: &[u8])
        ensures
            r@ == self.bytes(),
            r@.len() == 1024,
    {
        self.pixels.as_slice()
    }

    pub fn pixel(&self, x: usize, y: usize) -> (r: bool)
        ensures
            r == self.lit(x as int, y as int),
            r == (on_screen(x as int, y as int) && bit_at(self.bytes(), x as int, y as int)),
    {
        if x >= LCD_WIDTH || y >= LCD_HEIGHT {
            return false;
        }
        let byte = self.pixels[y * STRIDE + x / 8];
        (byte >> (7 - (x % 8) as u8)) & 1 == 1
    }

    pub fn set_pixel(&mut self, x: usize, y: usize, on: bool)
        ensures
            forall|px: int, py: int|
                #[trigger] final(self).lit(px, py) == if px == x && py == y && on_screen(px, py) {
                    on
                } else {
                    old(self).lit(px, py)
                },
            !on_screen(x as int, y as int) ==> final(self).bytes() == old(self).bytes(),
            on_screen(x as int, y as int) ==> ({
                let i = y * 16 + x / 8;
                let mask = 1u8 << (7 - x % 8) as u8;
                final(self).bytes() == old(self).bytes().update(
                    i,
                    if on { old(self).bytes()[i] | mask } else { old(self).bytes()[i] & !mask },
                )
            }),
    {
        if x >= LCD_WIDTH || y >= LCD_HEIGHT {
            return;
        }
        let ghost before = self.pixels@;
        let k = (x % 8) as u8;
        let idx = y * STRIDE + x / 8;
        let mask = 1u8 << (7 - k);
        let b = self.pixels[idx];
        if on {
            self.pixels[idx] = b | mask;
        } else {
            self.pixels[idx] = b & !mask;
        }
        proof {
            lemma_byte_bits();
            assert forall|px: int, py: int|
                #[trigger] self.lit(px, py) == if px == x && py == y && on_screen(px, py) {
                    on
                } else {
                    old(self).lit(px, py)
                } by {
                if on_screen(px, py) {
                    let j = (px % 8) as u8;
                    let pi = py * 16 + px / 8;
                    if pi == idx {
                        assert(py == y && px / 8 == x / 8);
                        assert(self.pixels@[pi] == if on { b | mask } else { b & !mask });
                        assert((((b | (1u8 << (7 - k) as u8)) >> (7 - j) as u8) & 1) == if j == k {
                            1u8
                        } else {
                            (b >> (7 - j) as u8) & 1
                        });
                        assert((((b & !(1u8 << (7 - k) as u8)) >> (7 - j) as u8) & 1) == if j == k {
                            0u8
                        } else {
                            (b >> (7 - j) as u8) & 1
                        });
                    } else {
                        assert(self.pixels@[pi] == before[pi]);
                    }
                }
            }
        }
    }

    pub fn fill_rect(&mut self, x: usize, y: usize, w: usize, h: usize, on: bool)
        requires
            w == 0 || h == 0 || (x + w <= usize::MAX + 1 && y + h <= usize::MAX + 1),
        ensures
            forall|px: int, py: int|
                #[trigger] final(self).lit(px, py) == if in_rect(px, py, x as int, y as int, w as int, h as int)
                    && on_screen(px, py) {
                    on
                } else {
                    old(self).lit(px, py)
                },
    {
        let ghost start = *self;
        let mut dy: usize = 0;
        while dy < h
            invariant
                dy <= h,
                w == 0 || h == 0 || (x + w <= usize::MAX + 1 && y + h <= usize::MAX + 1),
                forall|px: int, py: int|
                    #[trigger] self.lit(px, py) == if in_rect(px, py, x as int, y as int, w as int, dy as int)
                        && on_screen(px, py) {
                        on
                    } else {
                        start.lit(px, py)
                    },
            decreases h - dy,
        {
            let mut dx: usize = 0;
            while dx < w
                invariant
                    dx <= w,
                    dy < h,
                    w == 0 || h == 0 || (x + w <= usize::MAX + 1 && y + h <= usize::MAX + 1),
                    forall|px: int, py: int|
                        #[trigger] self.lit(px, py) == if (in_rect(px, py, x as int, y as int, w as int, dy as int)
                            || in_rect(px, py, x as int, (y + dy) as int, dx as int, 1)) && on_screen(px, py) {
                            on
                        } else {
                            start.lit(px, py)
                        },
                decreases w - dx,
            {
                self.set_pixel(x + dx, y + dy, on);
                dx = dx + 1;
            }
            dy = dy + 1;
        }
    }

    pub fn frame_rect(&mut self, x: usize, y: usize, w: usize, h: usize)
        requires
            w == 0 || h == 0 || (x + w <= usize::MAX && y + h <= usize::MAX),
        ensures
            forall|px: int, py: int|
                #[trigger] final(self).lit(px, py) == (old(self).lit(px, py) || (on_screen(px, py) && w > 0 && h > 0
                    && in_rect(px, py, x as int, y as int, w as int, h as int) && (px == x || px == x + w - 1
                    || py == y || py == y + h - 1))),
    {
        if w == 0 || h == 0 {
            return;
        }
        let ghost start = *self;
        let mut dx: usize = 0;
        while dx < w
            invariant
                dx <= w,
                w > 0 && h > 0,
                x + w <= usize::MAX && y + h <= usize::MAX,
                forall|px: int, py: int|
                    #[trigger] self.lit(px, py) == (start.lit(px, py) || (on_screen(px, py) && x <= px < x + dx && (py
                        == y || py == y + h - 1))),
            decreases w - dx,
        {
            self.set_pixel(x + dx, y, true);
            self.set_pixel(x + dx, y + h - 1, true);
            dx = dx + 1;
        }
        let mut dy: usize = 0;
        while dy < h
            invariant
                dy <= h,
                w > 0 && h > 0,
                x + w <= usize::MAX && y + h <= usize::MAX,
                forall|px: int, py: int|
                    #[trigger] self.lit(px, py) == (start.lit(px, py) || (on_screen(px, py) && ((x <= px < x + w && (py
                        == y || py == y + h - 1)) || (y <= py < y + dy && (px == x || px == x + w - 1))))),
            decreases h - dy,
        {
            self.set_pixel(x, y + dy, true);
            self.set_pixel(x + w - 1, y + dy, true);
            dy = dy + 1;
        }
    }
}

/// Pixel (`cx`, `ry`) of the glyph for `c` is set.
pub open spec fn glyph_pixel(c: char, ry: int, cx: int) -> bool {
    (glyph_row(c, ry) >> ((4 - cx) as u8)) & 1 == 1
}

/// The pixel lies in the `scale`-sized cell of glyph pixel `k` (row `k / 5`,
/// column `k % 5`) and that glyph pixel is set.
pub open spec fn cell_covers(x: int, y: int, c: char, scale: int, k: int, px: int, py: int) -> bool {
    glyph_pixel(c, k / 5, k % 5) && in_rect(px, py, x + (k % 5) * scale, y + (k / 5) * scale, scale, scale)
}

/// The pixel is covered by one of the first `n` glyph pixels.
pub open spec fn glyph_covers(x: int, y: int, c: char, scale: int, n: int, px: int, py: int) -> bool
    decreases n,
{
    n > 0 && (glyph_covers(x, y, c, scale, n - 1, px, py) || cell_covers(x, y, c, scale, n - 1, px, py))
}

/// Every cell of a lit glyph pixel, and the advance, fit in a `usize`.
pub open spec fn glyph_fits(x: int, y: int, c: char, scale: int) -> bool {
    &&& 6 * scale <= usize::MAX
    &&& forall|ry: int, cx: int|
        0 <= ry < 7 && 0 <= cx < 5 && #[trigger] glyph_pixel(c, ry, cx) ==> x + (cx + 1) * scale <= usize::MAX + 1 && y
            + (ry + 1) * scale <= usize::MAX + 1
}

/// The pixel is covered by the glyphs of `text` drawn from `x`, each one
/// advancing six cells.
pub open spec fn text_covers(x: int, y: int, text: Seq<char>, scale: int, px: int, py: int) -> bool
    decreases text.len(),
{
    text.len() > 0 && (glyph_covers(x, y, text[0], scale, 35, px, py) || text_covers(
        x + 6 * scale,
        y,
        text.drop_first(),
        scale,
        px,
        py,
    ))
}

/// Every glyph of `text` fits where it is drawn, and so does the cursor.
pub open spec fn text_fits(x: int, y: int, text: Seq<char>, scale: int) -> bool
    decreases text.len(),
{
    text.len() > 0 ==> glyph_fits(x, y, text[0], scale) && x + 6 * scale <= usize::MAX && text_fits(
        x + 6 * scale,
        y,
        text.drop_first(),
        scale,
    )
}

/// The decimal digits of `n`, most significant first.
pub open spec fn digits_of(n: nat) -> Seq<char>
    decreases n,
{
    if n < 10 {
        seq![(48 + n) as char]
    } else {
        digits_of(n / 10).push((48 + n % 10) as char)
    }
}

/// How a signed integer is written: a minus sign when negative, then its
/// magnitude's digits.
pub open spec fn int_text(v: i64) -> Seq<char> {
    if v < 0 {
        seq!['-'] + digits_of((-v) as nat)
    } else {
        digits_of(v as nat)
    }
}

/// Glyph coverage stays in the glyph's box.
proof fn lemma_glyph_covers_box(x: int, y: int, c: char, scale: int, n: int, px: int, py: int)
    requires
        0 <= n <= 35,
        scale >= 0,
        glyph_covers(x, y, c, scale, n, px, py),
    ensures
        x <= px < x + 5 * scale,
        y <= py < y + 7 * scale,
    decreases n,
{
    if glyph_covers(x, y, c, scale, n - 1, px, py) {
        lemma_glyph_covers_box(x, y, c, scale, n - 1, px, py);
    } else {
        let k = n - 1;
        assert((k % 5) * scale + scale <= 5 * scale && (k / 5) * scale + scale <= 7 * scale) by (nonlinear_arith)
            requires
                0 <= k < 35,
                scale >= 0,
        ;
        assert(0 <= (k % 5) * scale && 0 <= (k / 5) * scale) by (nonlinear_arith)
            requires
                0 <= k < 35,
                scale >= 0,
        ;
    }
}

/// Text coverage stays in the text's band of rows, right of `x`.
pub proof fn lemma_text_covers_band(x: int, y: int, text: Seq<char>, scale: int, px: int, py: int)
    requires
        scale >= 0,
        text_covers(x, y, text, scale, px, py),
    ensures
        y <= py < y + 7 * scale,
        x <= px,
    decreases text.len(),
{
    if glyph_covers(x, y, text[0], scale, 35, px, py) {
        lemma_glyph_covers_box(x, y, text[0], scale, 35, px, py);
    } else {
        lemma_text_covers_band(x + 6 * scale, y, text.drop_first(), scale, px, py);
    }
}

/// Text fits wherever the cursor stays comfortably inside a `usize`.
pub proof fn lemma_text_fits(x: int, y: int, text: Seq<char>, scale: int)
    requires
        0 <= x,
        0 <= y,
        0 <= scale,
        x + (text.len() + 1) * 6 * scale <= 0xffff_ffff,
        y + 7 * scale <= 0xffff_ffff,
    ensures
        text_fits(x, y, text, scale),
    decreases text.len(),
{
    if text.len() > 0 {
        assert((text.drop_first().len() + 1) * 6 * scale == (text.len() + 1) * 6 * scale - 6 * scale) by (
        nonlinear_arith)
            requires
                text.drop_first().len() == text.len() - 1,
        ;
        assert(x + 6 * scale <= x + (text.len() + 1) * 6 * scale) by (nonlinear_arith)
            requires
                text.len() >= 1,
                scale >= 0,
        ;
        lemma_text_fits(x + 6 * scale, y, text.drop_first(), scale);
        assert forall|ry: int, cx: int|
            0 <= ry < 7 && 0 <= cx < 5 && #[trigger] glyph_pixel(text[0], ry, cx) implies x + (cx + 1) * scale
            <= usize::MAX + 1 && y + (ry + 1) * scale <= usize::MAX + 1 by {
            assert((cx + 1) * scale <= 5 * scale && (ry + 1) * scale <= 7 * scale) by (nonlinear_arith)
                requires
                    0 <= ry < 7,
                    0 <= cx < 5,
                    scale >= 0,
            ;
        }
    }
}

impl Lcd {
    /// Draw one glyph at the given scale. Returns the x advance.
    pub fn draw_glyph(&mut self, x: usize, y: usize, c: char, scale: usize) -> (r: usize)
        requires
            glyph_fits(x as int, y as int, c, scale as int),
        ensures
            r == 6 * scale,
            forall|px: int, py: int|
                #[trigger] final(self).lit(px, py) == (old(self).lit(px, py) || (on_screen(px, py) && glyph_covers(
                    x as int,
                    y as int,
                    c,
                    scale as int,
                    35,
                    px,
                    py,
                ))),
    {
        let rows = glyph(c);
        let ghost start = *self;
        let mut ry: usize = 0;
        while ry < 7
            invariant
                ry <= 7,
                glyph_fits(x as int, y as int, c, scale as int),
                forall|i: int| 0 <= i < 7 ==> #[trigger] rows@[i] == glyph_row(c, i),
                forall|px: int, py: int|
                    #[trigger] self.lit(px, py) == (start.lit(px, py) || (on_screen(px, py) && glyph_covers(
                        x as int,
                        y as int,
                        c,
                        scale as int,
                        5 * ry,
                        px,
                        py,
                    ))),
            decreases 7 - ry,
        {
            let bits = rows[ry];
            let mut cx: usize = 0;
            while cx < GLYPH_W
                invariant
                    ry < 7,
                    cx <= 5,
                    bits == glyph_row(c, ry as int),
                    glyph_fits(x as int, y as int, c, scale as int),
                    forall|px: int, py: int|
                        #[trigger] self.lit(px, py) == (start.lit(px, py) || (on_screen(px, py) && glyph_covers(
                            x as int,
                            y as int,
                            c,
                            scale as int,
                            5 * ry + cx,
                            px,
                            py,
                        ))),
                decreases 5 - cx,
            {
                let k = 5 * ry + cx;
                assert(k / 5 == ry && k % 5 == cx);
                let lit = (bits >> (4 - cx) as u8) & 1 == 1;
                if lit {
                    assert(glyph_pixel(c, ry as int, cx as int));
                    assert(x + (cx + 1) * scale <= usize::MAX + 1 && y + (ry + 1) * scale <= usize::MAX + 1);
                    assert(x + cx * scale <= usize::MAX && y + ry * scale <= usize::MAX && (cx + 1) * scale == cx
                        * scale + scale && (ry + 1) * scale == ry * scale + scale) by (nonlinear_arith)
                        requires
                            x + (cx + 1) * scale <= usize::MAX + 1,
                            y + (ry + 1) * scale <= usize::MAX + 1,
                            x <= usize::MAX,
                            y <= usize::MAX,
                            scale >= 0,
                            cx >= 0,
                            ry >= 0,
                    ;
                    self.fill_rect(x + cx * scale, y + ry * scale, scale, scale, true);
                }
                cx = cx + 1;
            }
            ry = ry + 1;
        }
        (GLYPH_W + 1) * scale
    }

    /// Draw text. Returns the x just past the last glyph.
    pub fn draw_text(&mut self, x: usize, y: usize, text: &str, scale: usize) -> (r: usize)
        requires
            text_fits(x as int, y as int, text@, scale as int),
        ensures
            r == x + text@.len() * 6 * scale,
            forall|px: int, py: int|
                #[trigger] final(self).lit(px, py) == (old(self).lit(px, py) || (on_screen(px, py) && text_covers(
                    x as int,
                    y as int,
                    text@,
                    scale as int,
                    px,
                    py,
                ))),
    {
        let n = text.unicode_len();
        let ghost start = *self;
        let mut cursor = x;
        let mut i: usize = 0;
        assert(text@.subrange(0, n as int) == text@);
        assert(text@.subrange(0, 0) =~= Seq::<char>::empty());
        while i < n
            invariant
                n == text@.len(),
                i <= n,
                cursor == x + i * 6 * scale,
                text_fits(cursor as int, y as int, text@.subrange(i as int, n as int), scale as int),
                forall|px: int, py: int|
                    #[trigger] self.lit(px, py) == (start.lit(px, py) || (on_screen(px, py) && text_covers(
                        x as int,
                        y as int,
                        text@.subrange(0, i as int),
                        scale as int,
                        px,
                        py,
                    ))),
            decreases n - i,
        {
            let c = text.get_char(i);
            let ghost rest = text@.subrange(i as int, n as int);
            assert(rest[0] == c);
            assert(rest.drop_first() == text@.subrange(i + 1, n as int));
            let advance = self.draw_glyph(cursor, y, c, scale);
            proof {
                assert(text@.subrange(0, i + 1) == text@.subrange(0, i as int).push(c));
                assert forall|px: int, py: int|
                    #[trigger] self.lit(px, py) == (start.lit(px, py) || (on_screen(px, py) && text_covers(
                        x as int,
                        y as int,
                        text@.subrange(0, i + 1),
                        scale as int,
                        px,
                        py,
                    ))) by {
                    lemma_text_covers_push(x as int, y as int, text@.subrange(0, i as int), c, scale as int, px, py);
                    assert(text@.subrange(0, i as int).len() == i);
                }
                assert((i + 1) * 6 * scale == i * 6 * scale + 6 * scale) by (nonlinear_arith);
            }
            cursor = cursor + advance;
            i = i + 1;
        }
        cursor
    }
}

impl Lcd {
    /// Draw a signed integer in decimal. Returns the x advance.
    pub fn draw_int(&mut self, x: usize, y: usize, value: i64, scale: usize) -> (r: usize)
        requires
            text_fits(x as int, y as int, int_text(value), scale as int),
        ensures
            r == int_text(value).len() * 6 * scale,
            forall|px: int, py: int|
                #[trigger] final(self).lit(px, py) == (old(self).lit(px, py) || (on_screen(px, py) && text_covers(
                    x as int,
                    y as int,
                    int_text(value),
                    scale as int,
                    px,
                    py,
                ))),
    {
        let ghost start = *self;
        let ghost full = int_text(value);
        let ghost m0: nat = if value < 0 { (-value) as nat } else { value as nat };
        let mut cursor = x;
        let ghost mut drawn: Seq<char> = Seq::empty();
        assert(full =~= drawn + full);
        if value < 0 {
            assert(full[0] == '-');
            assert(full.drop_first() =~= digits_of(m0));
            self.draw_glyph(cursor, y, '-', scale);
            proof {
                assert forall|px: int, py: int|
                    #[trigger] self.lit(px, py) == (start.lit(px, py) || (on_screen(px, py) && text_covers(
                        x as int,
                        y as int,
                        seq!['-'],
                        scale as int,
                        px,
                        py,
                    ))) by {
                    lemma_text_covers_push(x as int, y as int, Seq::empty(), '-', scale as int, px, py);
                    assert(Seq::<char>::empty().push('-') == seq!['-']);
                }
                drawn = seq!['-'];
            }
            cursor = cursor + 6 * scale;
        }
        assert(drawn + digits_of(m0) == full);
        let mut magnitude: u64 = if value < 0 {
            (0 - (value as i128)) as u64
        } else {
            value as u64
        };
        assert(magnitude == m0);
        let mut digits = [0u8; 20];
        let mut count: usize = 0;
        if magnitude == 0 {
            digits[0] = 0;
            count = 1;
            assert(digit_chars(digits@.subrange(0, 1)) =~= digits_of(0));
        } else {
            proof {
                vstd::arithmetic::power::lemma_pow0(10);
            }
            while magnitude > 0 && count < 20
                invariant
                    count <= 20,
                    magnitude <= u64::MAX as int / pow(10, count as nat),
                    magnitude > 0 ==> digits_of(m0) == digits_of(magnitude as nat) + digit_chars(digits@.subrange(0, count as int)),
                    magnitude == 0 ==> digits_of(m0) == digit_chars(digits@.subrange(0, count as int)),
                    m0 > 0,
                    count == 0 ==> magnitude == m0,
                    forall|i: int| 0 <= i < count ==> #[trigger] digits@[i] < 10,
                decreases magnitude,
            {
                let d = (magnitude % 10) as u8;
                let q = magnitude / 10;
                proof {
                    lemma_digit_step(magnitude as nat, digits@.subrange(0, count as int), d);
                    lemma_bound_step(magnitude as nat, count as nat);
                }
                digits[count] = d;
                assert(digits@.subrange(0, count + 1) == digits@.subrange(0, count as int).push(d));
                magnitude = q;
                count = count + 1;
            }
            proof {
                if magnitude > 0 {
                    lemma_bound_zero();
                    assert(false);
                }
            }
        }
        let ghost shown = digit_chars(digits@.subrange(0, count as int));
        assert(shown == digits_of(m0));
        proof {
            assert(shown.len() == count);
            assert(shown.subrange(0, count as int) == shown);
            if value < 0 {
                assert(full.drop_first() == shown);
                assert(drawn.len() == 1);
            } else {
                assert(full == shown);
                assert(drawn.len() == 0);
            }
            assert(drawn + shown.subrange(0, 0) == drawn);
        }
        let mut ix = count;
        while ix > 0
            invariant
                ix <= count,
                count <= 20,
                shown == digit_chars(digits@.subrange(0, count as int)),
                shown.len() == count,
                drawn + shown == full,
                drawn.len() <= full.len(),
                cursor == x + (drawn.len() + (count - ix)) * 6 * scale,
                forall|i: int| 0 <= i < count ==> #[trigger] digits@[i] < 10,
                text_fits(cursor as int, y as int, shown.subrange(count - ix, count as int), scale as int),
                forall|px: int, py: int|
                    #[trigger] self.lit(px, py) == (start.lit(px, py) || (on_screen(px, py) && text_covers(
                        x as int,
                        y as int,
                        drawn + shown.subrange(0, count - ix),
                        scale as int,
                        px,
                        py,
                    ))),
            decreases ix,
        {
            ix = ix - 1;
            let c = (48u8 + digits[ix]) as char;
            let ghost done = drawn + shown.subrange(0, count - ix - 1);
            assert(shown[count - ix - 1] == c);
            assert(shown.subrange(count - ix - 1, count as int).drop_first() == shown.subrange(count - ix, count as int));
            let advance = self.draw_glyph(cursor, y, c, scale);
            proof {
                assert(drawn + shown.subrange(0, count - ix) == done.push(c));
                assert forall|px: int, py: int|
                    #[trigger] self.lit(px, py) == (start.lit(px, py) || (on_screen(px, py) && text_covers(
                        x as int,
                        y as int,
                        drawn + shown.subrange(0, count - ix),
                        scale as int,
                        px,
                        py,
                    ))) by {
                    lemma_text_covers_push(x as int, y as int, done, c, scale as int, px, py);
                }
                assert((drawn.len() + (count - ix)) * 6 * scale == (drawn.len() + (count - ix - 1)) * 6 * scale + 6
                    * scale) by (nonlinear_arith);
            }
            cursor = cursor + advance;
        }
        assert(drawn + shown.subrange(0, count as int) == full);
        proof {
            assert(cursor - x == full.len() * 6 * scale) by (nonlinear_arith)
                requires
                    cursor == x + (drawn.len() + count) * 6 * scale,
                    full.len() == drawn.len() + count,
            ;
        }
        cursor - x
    }
}

/// Digits (least significant first) as the characters they read as, most
/// significant first.
pub open spec fn digit_chars(d: Seq<u8>) -> Seq<char> {
    Seq::new(d.len(), |i: int| (48 + d[d.len() - 1 - i]) as char)
}

/// Splitting off the last decimal digit.
proof fn lemma_digit_step(n: nat, d: Seq<u8>, r: u8)
    requires
        n > 0,
        r == n % 10,
    ensures
        n / 10 > 0 ==> digits_of(n) + digit_chars(d) == digits_of(n / 10) + digit_chars(d.push(r)),
        n / 10 == 0 ==> digits_of(n) + digit_chars(d) == digit_chars(d.push(r)),
{
    assert(digit_chars(d.push(r)) =~= seq![(48 + r) as char] + digit_chars(d));
    if n < 10 {
        assert(digits_of(n) =~= seq![(48 + n) as char]);
    } else {
        assert(digits_of(n) == digits_of(n / 10).push((48 + n % 10) as char));
        assert(digits_of(n / 10).push((48 + n % 10) as char) + digit_chars(d) =~= digits_of(n / 10) + (seq![(48 + r) as char] + digit_chars(d)));
    }
}

/// Dividing by ten keeps the magnitude within the bound for one more digit.
proof fn lemma_bound_step(m: nat, c: nat)
    requires
        m <= u64::MAX as int / pow(10, c),
    ensures
        m / 10 <= u64::MAX as int / pow(10, c + 1),
{
    vstd::arithmetic::power::lemma_pow_positive(10, c);
    vstd::arithmetic::power::lemma_pow_adds(10, c, 1);
    vstd::arithmetic::power::lemma_pow1(10);
    vstd::arithmetic::div_mod::lemma_div_denominator(u64::MAX as int, pow(10, c) as int, 10);
    vstd::arithmetic::div_mod::lemma_div_is_ordered(m as int, u64::MAX as int / pow(10, c) as int, 10);
}

/// No 64-bit magnitude has more than twenty digits.
proof fn lemma_bound_zero()
    ensures
        u64::MAX as int / pow(10, 20) == 0,
{
    reveal_with_fuel(pow, 21);
    assert(pow(10, 20) == 100_000_000_000_000_000_000);
}

/// Drawing one more character adds its glyph at the cursor.
proof fn lemma_text_covers_push(x: int, y: int, p: Seq<char>, c: char, scale: int, px: int, py: int)
    ensures
        text_covers(x, y, p.push(c), scale, px, py) == (text_covers(x, y, p, scale, px, py) || glyph_covers(
            x + p.len() * 6 * scale,
            y,
            c,
            scale,
            35,
            px,
            py,
        )),
    decreases p.len(),
{
    if p.len() == 0 {
        assert(p.push(c).drop_first() =~= Seq::<char>::empty());
        assert(p.push(c)[0] == c);
        assert(x + p.len() * 6 * scale == x) by (nonlinear_arith)
            requires
                p.len() == 0,
        ;
        assert(!text_covers(x + 6 * scale, y, Seq::<char>::empty(), scale, px, py));
        assert(!text_covers(x, y, p, scale, px, py));
    } else {
        assert(p.push(c).drop_first() =~= p.drop_first().push(c));
        assert(p.push(c)[0] == p[0]);
        lemma_text_covers_push(x + 6 * scale, y, p.drop_first(), c, scale, px, py);
        assert(x + 6 * scale + p.drop_first().len() * 6 * scale == x + p.len() * 6 * scale) by (nonlinear_arith)
            requires
                p.drop_first().len() == p.len() - 1,
        ;
    }
}

/// `10^k`.
pub open spec fn ten_pow(k: nat) -> nat
    decreases k,
{
    if k == 0 {
        1
    } else {
        10 * ten_pow((k - 1) as nat)
    }
}

/// A number below `10^k` has at most `k` digits.
proof fn lemma_digits_len(n: nat, k: nat)
    requires
        k >= 1,
        n < ten_pow(k),
    ensures
        digits_of(n).len() <= k,
    decreases n,
{
    if n >= 10 {
        assert(k >= 2) by {
            if k == 1 {
                assert(ten_pow(1) == 10 * ten_pow(0));
            }
        }
        assert(ten_pow(k) == 10 * ten_pow((k - 1) as nat));
        assert(n / 10 < ten_pow((k - 1) as nat));
        lemma_digits_len(n / 10, (k - 1) as nat);
    }
}

/// The bottom rows under the text (58 to 63) are dark.
pub open spec fn bottom_clear(l: Lcd) -> bool {
    forall|px: int, py: int| 58 <= py ==> !#[trigger] l.lit(px, py)
}

/// The divider row under the header is lit across the screen.
pub open spec fn divider_lit(l: Lcd) -> bool {
    forall|px: int| 0 <= px < 128 ==> #[trigger] l.lit(px, 10)
}

/// Drawing text above row 58 keeps the bottom rows dark and a lit divider lit.
proof fn lemma_text_step(before: Lcd, after: Lcd, x: int, y: int, t: Seq<char>, scale: int)
    requires
        scale >= 0,
        y + 7 * scale <= 58,
        forall|px: int, py: int|
            #[trigger] after.lit(px, py) == (before.lit(px, py) || (on_screen(px, py) && text_covers(
                x,
                y,
                t,
                scale,
                px,
                py,
            ))),
    ensures
        bottom_clear(before) ==> bottom_clear(after),
        divider_lit(before) ==> divider_lit(after),
{
    if bottom_clear(before) {
        assert forall|px: int, py: int| 58 <= py implies !#[trigger] after.lit(px, py) by {
            assert(!before.lit(px, py));
            if text_covers(x, y, t, scale, px, py) {
                lemma_text_covers_band(x, y, t, scale, px, py);
            }
        }
    }
    if divider_lit(before) {
        assert forall|px: int| 0 <= px < 128 implies #[trigger] after.lit(px, 10) by {
            assert(before.lit(px, 10));
        }
    }
}

/// A codename's letters.
pub open spec fn name_text(c: Codename) -> Seq<char> {
    Seq::new(c.text().len(), |i: int| c.text()[i] as char)
}

/// The `k`-th text on the screen, from the header down: where it starts,
/// the text, and its scale. The header holds the box id after "LOFI #" and
/// the play state at the right; then the role at double size; the current
/// codename after "NOW "; the next codename after "NEXT ", a dash and the
/// bars until the change; and the peer count after "P" and the clamped sync
/// error after "SYNC ", in microseconds.
pub open spec fn screen_item(state: DisplayState, k: int) -> (int, int, Seq<char>, int) {
    let next = name_text(state.next_codename);
    let bars = int_text(state.bars_to_next as i64);
    let peers = int_text(state.peers as i64);
    let error = int_text(crate::arith::clamp(state.sync_error_us as int, -99_999, 99_999) as i64);
    let dash_x = (32 + next.len() * 6 + 4) as int;
    let sync_x = (8 + peers.len() * 6 + 6) as int;
    if k == 0 {
        (2, 1, "LOFI #"@, 1)
    } else if k == 1 {
        (38, 1, int_text(state.node_id as i64), 1)
    } else if k == 2 {
        (102, 1, if state.playing { "PLAY"@ } else { "STOP"@ }, 1)
    } else if k == 3 {
        (2, 14, spec_label(state.role), 2)
    } else if k == 4 {
        (2, 32, "NOW "@, 1)
    } else if k == 5 {
        (26, 32, name_text(state.codename), 1)
    } else if k == 6 {
        (2, 41, "NEXT "@, 1)
    } else if k == 7 {
        (32, 41, next, 1)
    } else if k == 8 {
        (dash_x, 41, "-"@, 1)
    } else if k == 9 {
        (dash_x + 6, 41, bars, 1)
    } else if k == 10 {
        (dash_x + 6 + (bars.len() * 6) as int, 41, "B"@, 1)
    } else if k == 11 {
        (2, 51, "P"@, 1)
    } else if k == 12 {
        (8, 51, peers, 1)
    } else if k == 13 {
        (sync_x, 51, "SYNC "@, 1)
    } else if k == 14 {
        (sync_x + 30, 51, error, 1)
    } else {
        (sync_x + 30 + (error.len() * 6) as int, 51, "US"@, 1)
    }
}

/// One of the screen's first `n` texts covers the pixel.
pub open spec fn texts_cover(state: DisplayState, n: nat, px: int, py: int) -> bool
    decreases n,
{
    n > 0 && (texts_cover(state, (n - 1) as nat, px, py) || {
        let (x, y, t, scale) = screen_item(state, n - 1);
        text_covers(x, y, t, scale, px, py)
    })
}

/// The pixel is lit on the rendered screen: a glyph of one of its texts,
/// the divider row under the header, or the progress bar along the bottom.
pub open spec fn screen_lit(state: DisplayState, px: int, py: int) -> bool {
    on_screen(px, py) && (texts_cover(state, 16, px, py) || py == 10 || (61 <= py && px < bar_width(state)))
}

/// `l` shows the screen's first `n` texts, and the divider where `divider`.
pub open spec fn shows(l: Lcd, state: DisplayState, n: nat, divider: bool) -> bool {
    forall|px: int, py: int|
        #[trigger] l.lit(px, py) == (on_screen(px, py) && (texts_cover(state, n, px, py) || (divider && py == 10)))
}

/// Drawing the screen's next text adds it to what the framebuffer shows.
proof fn lemma_shows_step(before: Lcd, after: Lcd, state: DisplayState, n: nat, divider: bool)
    requires
        shows(before, state, n, divider),
        ({
            let (x, y, t, scale) = screen_item(state, n as int);
            forall|px: int, py: int|
                #[trigger] after.lit(px, py) == (before.lit(px, py) || (on_screen(px, py) && text_covers(
                    x,
                    y,
                    t,
                    scale,
                    px,
                    py,
                )))
        }),
    ensures
        shows(after, state, n + 1, divider),
{
    assert forall|px: int, py: int|
        #[trigger] after.lit(px, py) == (on_screen(px, py) && (texts_cover(state, n + 1, px, py) || (divider && py
            == 10))) by {
        assert(before.lit(px, py) == (on_screen(px, py) && (texts_cover(state, n, px, py) || (divider && py == 10))));
    }
}

/// The progress bar's width in pixels: the bar position's share of the
/// screen width.
pub open spec fn bar_width(state: DisplayState) -> int {
    (if state.beat_phase_milli > 1000 { 1000 } else { state.beat_phase_milli as int }) * 128 / 1000
}

/// Rasterise a [`DisplayState`] into the framebuffer: a header with the box
/// id and play state over a divider row, the role, the current and next
/// codenames with the bars until the change, the peer count and sync error,
/// and a progress bar for the position in the bar along the bottom.
pub fn render(state: &DisplayState, lcd: &mut Lcd)
    ensures
        divider_lit(*final(lcd)),
        forall|px: int, py: int|
            58 <= py < 64 ==> #[trigger] final(lcd).lit(px, py) == (61 <= py && 0 <= px < 128 && px < bar_width(*state)),
        forall|px: int, py: int| #[trigger] final(lcd).lit(px, py) == screen_lit(*state, px, py),
{
    lcd.clear();
    assert(bottom_clear(*lcd));
    assert(shows(*lcd, *state, 0, false));
    proof {
        reveal_strlit("LOFI #");
        reveal_strlit("PLAY");
        reveal_strlit("STOP");
        reveal_strlit("NOW ");
        reveal_strlit("NEXT ");
        reveal_strlit("-");
        reveal_strlit("B");
        reveal_strlit("P");
        reveal_strlit("SYNC ");
        reveal_strlit("US");
        reveal_with_fuel(ten_pow, 11);
    }

    // Header: device id, and play/stop on the right.
    let ghost l0 = *lcd;
    proof {
        lemma_text_fits(2, 1, "LOFI #"@, 1);
    }
    let mut x = lcd.draw_text(2, 1, "LOFI #", 1);
    proof {
        lemma_text_step(l0, *lcd, 2, 1, "LOFI #"@, 1);
        lemma_shows_step(l0, *lcd, *state, 0, false);
        lemma_digits_len(state.node_id as nat, 10);
        lemma_text_fits(x as int, 1, int_text(state.node_id as i64), 1);
    }
    let ghost l1 = *lcd;
    lcd.draw_int(x, 1, state.node_id as i64, 1);
    proof {
        lemma_text_step(l1, *lcd, x as int, 1, int_text(state.node_id as i64), 1);
        lemma_shows_step(l1, *lcd, *state, 1, false);
    }
    let status = if state.playing {
        "PLAY"
    } else {
        "STOP"
    };
    proof {
        lemma_text_fits(102, 1, status@, 1);
    }
    let ghost l2 = *lcd;
    lcd.draw_text(LCD_WIDTH - 4 * (GLYPH_W + 1) - 2, 1, status, 1);
    proof {
        lemma_text_step(l2, *lcd, 102, 1, status@, 1);
        lemma_shows_step(l2, *lcd, *state, 2, false);
    }
    let ghost l3 = *lcd;
    let mut px: usize = 0;
    while px < LCD_WIDTH
        invariant
            px <= 128,
            bottom_clear(*lcd),
            forall|q: int| 0 <= q < px ==> #[trigger] lcd.lit(q, 10),
            forall|a: int, b: int|
                #[trigger] lcd.lit(a, b) == (on_screen(a, b) && (texts_cover(*state, 3, a, b) || (b == 10 && a < px))),
        decreases 128 - px,
    {
        lcd.set_pixel(px, 10, true);
        px = px + 1;
    }
    assert(divider_lit(*lcd));
    assert(shows(*lcd, *state, 3, true));

    // Primary role, large enough to be the main performance cue.
    let label = state.role.label();
    proof {
        lemma_text_fits(2, 14, label@, 2);
    }
    let ghost l4 = *lcd;
    lcd.draw_text(2, 14, label, 2);
    proof {
        lemma_text_step(l4, *lcd, 2, 14, label@, 2);
        lemma_shows_step(l4, *lcd, *state, 3, true);
    }

    // Current and next coined arrangement identities.
    proof {
        lemma_text_fits(2, 32, "NOW "@, 1);
    }
    let ghost l5 = *lcd;
    x = lcd.draw_text(2, 32, "NOW ", 1);
    proof {
        lemma_text_step(l5, *lcd, 2, 32, "NOW "@, 1);
        lemma_shows_step(l5, *lcd, *state, 4, true);
    }
    let now_name = state.codename.as_str();
    proof {
        lemma_text_fits(x as int, 32, now_name@, 1);
    }
    let ghost l6 = *lcd;
    lcd.draw_text(x, 32, now_name, 1);
    proof {
        lemma_text_step(l6, *lcd, x as int, 32, now_name@, 1);
        lemma_shows_step(l6, *lcd, *state, 5, true);
        lemma_text_fits(2, 41, "NEXT "@, 1);
    }
    let ghost l7 = *lcd;
    x = lcd.draw_text(2, 41, "NEXT ", 1);
    proof {
        lemma_text_step(l7, *lcd, 2, 41, "NEXT "@, 1);
        lemma_shows_step(l7, *lcd, *state, 6, true);
    }
    let next_name = state.next_codename.as_str();
    proof {
        lemma_text_fits(x as int, 41, next_name@, 1);
    }
    let ghost l8 = *lcd;
    x = lcd.draw_text(x, 41, next_name, 1);
    proof {
        lemma_text_step(l8, *lcd, 32, 41, next_name@, 1);
        lemma_shows_step(l8, *lcd, *state, 7, true);
        lemma_text_fits(x + 4, 41, "-"@, 1);
    }
    let ghost l9 = *lcd;
    x = lcd.draw_text(x + 4, 41, "-", 1);
    proof {
        lemma_text_step(l9, *lcd, x - 6, 41, "-"@, 1);
        lemma_shows_step(l9, *lcd, *state, 8, true);
        lemma_digits_len(state.bars_to_next as nat, 3);
        lemma_text_fits(x as int, 41, int_text(state.bars_to_next as i64), 1);
    }
    let ghost l10 = *lcd;
    x = x + lcd.draw_int(x, 41, state.bars_to_next as i64, 1);
    proof {
        lemma_text_step(l10, *lcd, x - int_text(state.bars_to_next as i64).len() * 6, 41, int_text(state.bars_to_next as i64), 1);
        lemma_shows_step(l10, *lcd, *state, 9, true);
        lemma_text_fits(x as int, 41, "B"@, 1);
    }
    let ghost l11 = *lcd;
    lcd.draw_text(x, 41, "B", 1);
    proof {
        lemma_text_step(l11, *lcd, x as int, 41, "B"@, 1);
        lemma_shows_step(l11, *lcd, *state, 10, true);
    }

    // Peers and sync quality.
    proof {
        lemma_text_fits(2, 51, "P"@, 1);
    }
    let ghost l12 = *lcd;
    x = lcd.draw_text(2, 51, "P", 1);
    proof {
        lemma_text_step(l12, *lcd, 2, 51, "P"@, 1);
        lemma_shows_step(l12, *lcd, *state, 11, true);
        lemma_digits_len(state.peers as nat, 3);
        lemma_text_fits(x as int, 51, int_text(state.peers as i64), 1);
    }
    let ghost l13 = *lcd;
    x = x + lcd.draw_int(x, 51, state.peers as i64, 1);
    proof {
        lemma_text_step(l13, *lcd, x - int_text(state.peers as i64).len() * 6, 51, int_text(state.peers as i64), 1);
        lemma_shows_step(l13, *lcd, *state, 12, true);
        lemma_text_fits(x + 6, 51, "SYNC "@, 1);
    }
    let ghost l14 = *lcd;
    x = lcd.draw_text(x + 6, 51, "SYNC ", 1);
    proof {
        lemma_text_step(l14, *lcd, x - 30, 51, "SYNC "@, 1);
        lemma_shows_step(l14, *lcd, *state, 13, true);
    }
    let clamped = crate::arith::clamp_i64(state.sync_error_us, -99_999, 99_999);
    proof {
        let m: nat = if clamped < 0 { (-clamped) as nat } else { clamped as nat };
        lemma_digits_len(m, 5);
        lemma_text_fits(x as int, 51, int_text(clamped), 1);
    }
    let ghost l15 = *lcd;
    x = x + lcd.draw_int(x, 51, clamped, 1);
    proof {
        lemma_text_step(l15, *lcd, x - int_text(clamped).len() * 6, 51, int_text(clamped), 1);
        lemma_shows_step(l15, *lcd, *state, 14, true);
        lemma_text_fits(x as int, 51, "US"@, 1);
    }
    let ghost l16 = *lcd;
    lcd.draw_text(x, 51, "US", 1);
    proof {
        lemma_text_step(l16, *lcd, x as int, 51, "US"@, 1);
        lemma_shows_step(l16, *lcd, *state, 15, true);
    }

    // Bar-position progress bar along the bottom.
    let phase: usize = if state.beat_phase_milli > 1000 {
        1000
    } else {
        state.beat_phase_milli as usize
    };
    let width = (phase * LCD_WIDTH) / 1000;
    let ghost l17 = *lcd;
    lcd.fill_rect(0, 61, width, 3, true);
    assert forall|px: int, py: int| #[trigger] lcd.lit(px, py) == screen_lit(*state, px, py) by {
        assert(l17.lit(px, py) == (on_screen(px, py) && (texts_cover(*state, 16, px, py) || py == 10)));
    }
}

} // verus!
