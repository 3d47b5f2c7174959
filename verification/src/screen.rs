//! Drawing a terminal grid with escape sequences: the UTF-8 bytes of a cell's
//! character, and the colour changes that a cell needs given the colours the
//! terminal already has.

use vstd::prelude::*;
use vstd::utf8::encode_utf8;
use crate::ansi::Rgb;
use crate::term_keys::encode_char_utf8;

verus! {

/// Appends the UTF-8 bytes of `ch` to `out`.
pub fn write_cell_char(out: &mut Vec<u8>, ch: char)
    ensures
        final(out)@ == old(out)@ + encode_utf8(seq![ch]),
{
    let encoded = encode_char_utf8(ch);
    let ghost start = out@;
    let mut i: usize = 0;
    while i < encoded.len()
        invariant
            i <= encoded@.len(),
            out@ == start + encoded@.take(i as int),
        decreases encoded@.len() - i,
    {
        out.push(encoded[i]);
        i = i + 1;
        assert(out@ =~= start + encoded@.take(i as int));
    }
    assert(encoded@.take(encoded@.len() as int) =~= encoded@);
    proof {
        let s = seq![ch];
        assert(s.drop_first() =~= Seq::<char>::empty());
        assert(encode_utf8(s.drop_first()) =~= Seq::<u8>::empty());
        assert(encode_utf8(s) == vstd::utf8::encode_scalar(s[0] as u32) + encode_utf8(
            s.drop_first(),
        ));
        assert(encode_utf8(s) =~= encoded@);
    }
}

/// The colours a cell is drawn in: its own, swapped under the cursor.
pub open spec fn cell_colors_spec(fg: Rgb, bg: Rgb, under_cursor: bool) -> (Rgb, Rgb) {
    if under_cursor {
        (bg, fg)
    } else {
        (fg, bg)
    }
}

/// The foreground and background a cell is drawn in.
pub fn cell_colors(fg: Rgb, bg: Rgb, under_cursor: bool) -> (r: (Rgb, Rgb))
    ensures
        r == cell_colors_spec(fg, bg, under_cursor),
{
    if under_cursor {
        (bg, fg)
    } else {
        (fg, bg)
    }
}

/// The cursor shows as the cell in reverse video: a cell keeps its colours
/// away from the cursor, and under it the foreground and background trade
/// places, so drawing the cursor twice over gives the cell back.
pub proof fn law_cursor_reverses_colors(fg: Rgb, bg: Rgb)
    ensures
        cell_colors_spec(fg, bg, false) == (fg, bg),
        cell_colors_spec(fg, bg, true).0 == cell_colors_spec(fg, bg, false).1,
        cell_colors_spec(fg, bg, true).1 == cell_colors_spec(fg, bg, false).0,
        cell_colors_spec(cell_colors_spec(fg, bg, true).0, cell_colors_spec(fg, bg, true).1, true)
            == (fg, bg),
{
}

/// The colour escapes a cell needs: a colour is set only when it differs
/// from the one in effect.
#[derive(Clone, Copy, Debug, PartialEq, Eq, Structural)]
pub struct ColorChange {
    pub set_fg: Option<Rgb>,
    pub set_bg: Option<Rgb>,
}

fn same_color(a: Option<Rgb>, b: Rgb) -> (r: bool)
    ensures
        r == (a == Some(b)),
{
    match a {
        Some(c) => c.r == b.r && c.g == b.g && c.b == b.b,
        None => false,
    }
}

/// Brings the colours in effect to `fg` and `bg`: reports which of them must
/// be set, and records both as in effect.
pub fn apply_cell_colors(current_fg: &mut Option<Rgb>, current_bg: &mut Option<Rgb>, fg: Rgb, bg: Rgb) -> (r:
    ColorChange)
    ensures
        *final(current_fg) == Some(fg),
        *final(current_bg) == Some(bg),
        r.set_fg == (if *old(current_fg) == Some(fg) {
            None
        } else {
            Some(fg)
        }),
        r.set_bg == (if *old(current_bg) == Some(bg) {
            None
        } else {
            Some(bg)
        }),
{
    let set_fg = if same_color(*current_fg, fg) {
        None
    } else {
        Some(fg)
    };
    let set_bg = if same_color(*current_bg, bg) {
        None
    } else {
        Some(bg)
    };
    *current_fg = Some(fg);
    *current_bg = Some(bg);
    ColorChange { set_fg, set_bg }
}

} // verus!
