//! The glyph atlas of the window renderer: the 8x8 bitmaps of the printable
//! ASCII characters laid out sixteen to a row in one single-channel image,
//! and where each character's cell lies in it.

use vstd::prelude::*;

verus! {

/// The first character with a cell in the atlas (space).
pub const ATLAS_GLYPH_START: u32 = 32;
/// The last character with a cell in the atlas (`~`).
pub const ATLAS_GLYPH_END: u32 = 126;
/// Cells per atlas row.
pub const ATLAS_GLYPHS_PER_ROW: u32 = 16;
/// The side of a glyph cell in pixels.
pub const GLYPH_PIXELS: u32 = 8;
/// The atlas width in pixels: sixteen cells.
pub const ATLAS_WIDTH: u32 = 128;
/// The atlas height in pixels: six rows of cells hold the 95 glyphs.
pub const ATLAS_HEIGHT: u32 = 48;
/// The number of glyphs in the atlas.
pub const ATLAS_GLYPH_COUNT: u32 = 95;

/// The eight rows of the bitmap of character `code` in the basic Latin
/// table of `font8x8`.
pub uninterp spec fn basic_legacy_glyph(code: u8) -> Seq<u8>;

/// The bitmap of character `code`, one byte per row.
///
/// Reads entry `code` of `font8x8::legacy::BASIC_LEGACY`, a table of 128
/// bitmaps; the entry is named as a function of the code.
#[verifier::external_body]
fn legacy_glyph(code: u8) -> (r: [u8; 8])
    requires
        code < 128,
    ensures
        r@ == basic_legacy_glyph(code),
{
    font8x8::legacy::BASIC_LEGACY[code as usize]
}

/// Whether pixel `col` (0 at the left) of a glyph row is drawn: the row's
/// bits are read from the most significant one.
pub open spec fn glyph_bit(bits: u8, col: int) -> bool {
    bits & (1u8 << ((7 - col) as u8)) != 0
}

/// The value of atlas pixel `(x, y)`: white where the glyph of its cell
/// draws, black elsewhere and in the unused cell at the end.
pub open spec fn atlas_pixel(x: int, y: int) -> u8 {
    let idx = (y / 8) * 16 + x / 8;
    if idx < ATLAS_GLYPH_COUNT {
        if glyph_bit(basic_legacy_glyph((ATLAS_GLYPH_START + idx) as u8)[y % 8], x % 8) {
            0xFF
        } else {
            0
        }
    } else {
        0
    }
}

/// The atlas image, row by row.
pub open spec fn atlas_image() -> Seq<u8> {
    Seq::new(
        (ATLAS_WIDTH * ATLAS_HEIGHT) as nat,
        |i: int| atlas_pixel(i % ATLAS_WIDTH as int, i / ATLAS_WIDTH as int),
    )
}

fn atlas_pixel_value(x: u32, y: u32) -> (r: u8)
    requires
        x < ATLAS_WIDTH,
        y < ATLAS_HEIGHT,
    ensures
        r == atlas_pixel(x as int, y as int),
{
    let idx = (y / GLYPH_PIXELS) * ATLAS_GLYPHS_PER_ROW + x / GLYPH_PIXELS;
    if idx < ATLAS_GLYPH_COUNT {
        let pattern = legacy_glyph((ATLAS_GLYPH_START + idx) as u8);
        let bits = pattern[(y % GLYPH_PIXELS) as usize];
        let shift: u8 = (7 - x % GLYPH_PIXELS) as u8;
        let mask: u8 = 1u8 << shift;
        if bits & mask != 0 {
            0xFF
        } else {
            0
        }
    } else {
        0
    }
}

/// The pixels of the atlas image, row by row, one byte per pixel.
pub fn atlas_pixels() -> (r: Vec<u8>)
    ensures
        r@ == atlas_image(),
{
    let mut out: Vec<u8> = Vec::new();
    let mut y: u32 = 0;
    while y < ATLAS_HEIGHT
        invariant
            y <= ATLAS_HEIGHT,
            out@.len() == y * ATLAS_WIDTH,
            forall|i: int| 0 <= i < out@.len() ==> #[trigger] out@[i] == atlas_pixel(i % 128, i / 128),
        decreases ATLAS_HEIGHT - y,
    {
        let mut x: u32 = 0;
        while x < ATLAS_WIDTH
            invariant
                y < ATLAS_HEIGHT,
                x <= ATLAS_WIDTH,
                out@.len() == y * ATLAS_WIDTH + x,
                forall|i: int| 0 <= i < out@.len() ==> #[trigger] out@[i] == atlas_pixel(i % 128, i / 128),
            decreases ATLAS_WIDTH - x,
        {
            let v = atlas_pixel_value(x, y);
            proof {
                vstd::arithmetic::div_mod::lemma_fundamental_div_mod_converse(
                    (y * 128 + x) as int,
                    128,
                    y as int,
                    x as int,
                );
            }
            out.push(v);
            x = x + 1;
        }
        y = y + 1;
    }
    assert(out@ =~= atlas_image());
    out
}

/// The code of the glyph a character is drawn with: its own when it has a
/// cell in the atlas, `?` otherwise.
pub open spec fn glyph_code(ch: char) -> int {
    if ATLAS_GLYPH_START <= ch as int <= ATLAS_GLYPH_END {
        ch as int
    } else {
        '?' as int
    }
}

/// The top-left pixel of the cell of glyph code `code`.
pub open spec fn cell_origin(code: int) -> (int, int) {
    let idx = code - ATLAS_GLYPH_START;
    ((idx % 16) * 8, (idx / 16) * 8)
}

/// The top-left pixel of the atlas cell that `ch` is drawn from; a character
/// without a cell is drawn as `?`.
pub fn glyph_origin(ch: char) -> (r: (u32, u32))
    ensures
        r.0 == cell_origin(glyph_code(ch)).0,
        r.1 == cell_origin(glyph_code(ch)).1,
{
    let v = ch as u32;
    let code: u32 = if ATLAS_GLYPH_START <= v && v <= ATLAS_GLYPH_END {
        v
    } else {
        '?' as u32
    };
    let idx = code - ATLAS_GLYPH_START;
    ((idx % ATLAS_GLYPHS_PER_ROW) * GLYPH_PIXELS, (idx / ATLAS_GLYPHS_PER_ROW) * GLYPH_PIXELS)
}

/// The cell a character is drawn from shows that character's bitmap: for a
/// character with a cell, pixel `(col, row)` of the cell is white exactly
/// where bit `7 - col` of row `row` of its `font8x8` bitmap is set.
pub proof fn law_cell_shows_glyph(ch: char, col: int, row: int)
    requires
        ATLAS_GLYPH_START <= ch as int <= ATLAS_GLYPH_END,
        0 <= col < 8,
        0 <= row < 8,
    ensures
        ({
            let (ox, oy) = cell_origin(glyph_code(ch));
            &&& 0 <= ox + col < ATLAS_WIDTH
            &&& 0 <= oy + row < ATLAS_HEIGHT
            &&& atlas_image()[(oy + row) * 128 + ox + col] == if glyph_bit(
                basic_legacy_glyph(ch as u8)[row],
                col,
            ) {
                0xFFu8
            } else {
                0u8
            }
        }),
{
    let idx = ch as int - 32;
    let q = idx / 16;
    let m = idx % 16;
    vstd::arithmetic::div_mod::lemma_fundamental_div_mod(idx, 16);
    let ox = m * 8;
    let oy = q * 8;
    let x = ox + col;
    let y = oy + row;
    assert(0 <= q < 6);
    vstd::arithmetic::div_mod::lemma_fundamental_div_mod_converse(x, 8, m, col);
    vstd::arithmetic::div_mod::lemma_fundamental_div_mod_converse(y, 8, q, row);
    let i = y * 128 + x;
    vstd::arithmetic::div_mod::lemma_fundamental_div_mod_converse(i, 128, y, x);
    assert(ch as u8 == (32 + idx) as u8);
}

/// No two characters with cells share one: the cell origin determines the
/// character.
pub proof fn law_cells_distinct(a: char, b: char)
    requires
        ATLAS_GLYPH_START <= a as int <= ATLAS_GLYPH_END,
        ATLAS_GLYPH_START <= b as int <= ATLAS_GLYPH_END,
        a != b,
    ensures
        cell_origin(glyph_code(a)) != cell_origin(glyph_code(b)),
{
    let ia = a as int - 32;
    let ib = b as int - 32;
    vstd::arithmetic::div_mod::lemma_fundamental_div_mod(ia, 16);
    vstd::arithmetic::div_mod::lemma_fundamental_div_mod(ib, 16);
    vstd::utf8::char_u32_cast(a, a as u32);
    vstd::utf8::char_u32_cast(b, b as u32);
}

} // verus!
