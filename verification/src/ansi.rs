//! ANSI art: images held as plain RGB bytes, the cells that block and braille
//! art are made of, and the text with 24-bit colour escapes that prints them.
//!
//! Which glyph a pixel becomes depends on its luminance, a floating-point
//! quantity; that classification is made by the caller, and everything that
//! follows from it is decided here.

use vstd::prelude::*;
use crate::text::{decimal, push_decimal, string_of};

verus! {

/// An RGB image: `width * height` pixels of three bytes, row by row.
pub struct RgbPixels {
    width: u32,
    height: u32,
    data: Vec<u8>,
}

impl RgbPixels {
    /// The image's invariant: the data holds exactly its pixels.
    pub closed spec fn wf(&self) -> bool {
        self.data@.len() == self.width as int * self.height as int * 3
    }

    pub closed spec fn spec_width(&self) -> u32 {
        self.width
    }

    pub closed spec fn spec_height(&self) -> u32 {
        self.height
    }

    pub closed spec fn spec_data(&self) -> Seq<u8> {
        self.data@
    }

    /// The image of `width` by `height` pixels held in `data`; `None` when
    /// `data` is not exactly that many pixels.
    pub fn new(width: u32, height: u32, data: Vec<u8>) -> (r: Option<Self>)
        ensures
            (data@.len() == width as int * height as int * 3) <==> r is Some,
            r matches Some(img) ==> img.wf() && img.spec_width() == width && img.spec_height()
                == height && img.spec_data() == data@,
    {
        assert((width as int) * (height as int) <= 0xffff_ffff * 0xffff_ffff) by (nonlinear_arith)
            requires
                width <= 0xffff_ffff,
                height <= 0xffff_ffff,
        ;
        let expected: u128 = width as u128 * height as u128 * 3;
        if data.len() as u128 != expected {
            return None;
        }
        Some(RgbPixels { width, height, data })
    }

    /// The width in pixels.
    pub fn width(&self) -> (r: u32)
        ensures
            r == self.spec_width(),
    {
        self.width
    }

    /// The height in pixels.
    pub fn height(&self) -> (r: u32)
        ensures
            r == self.spec_height(),
    {
        self.height
    }

    /// The pixel bytes, row by row.
    pub fn data(&self) -> (r: &[u8])
        ensures
            r@ == self.spec_data(),
    {
        self.data.as_slice()
    }

    /// The colour of the pixel in column `x` of row `y`.
    pub fn pixel(&self, x: u32, y: u32) -> (r: Rgb)
        requires
            self.wf(),
            x < self.spec_width(),
            y < self.spec_height(),
        ensures
            r == pixel_at(self.spec_data(), self.spec_width(), x, y),
    {
        proof {
            lemma_pixel_index(self.width, self.height, x, y);
        }
        assert((width_bound(self.width, self.height)) <= 0xffff_ffff * 0xffff_ffff * 3) by (nonlinear_arith)
            requires
                self.width <= 0xffff_ffff,
                self.height <= 0xffff_ffff,
        ;
        let n = self.data.len();
        let wide: u128 = (y as u128 * self.width as u128 + x as u128) * 3;
        assert(wide + 2 < n);
        let i: usize = wide as usize;
        Rgb { r: self.data[i], g: self.data[i + 1], b: self.data[i + 2] }
    }

    /// This image scaled to `width` by `height` pixels with a triangle
    /// (bilinear) filter.
    pub fn resized(&self, width: u32, height: u32) -> (r: Self)
        requires
            self.wf(),
            self.spec_width() > 0,
            self.spec_height() > 0,
            width > 0,
            height > 0,
            width as int * height as int * 3 <= isize::MAX,
            self.spec_width() as int * height as int * 16 <= isize::MAX,
        ensures
            r.wf(),
            r.spec_width() == width,
            r.spec_height() == height,
            r.spec_data() == triangle_resize(
                self.spec_data(),
                self.spec_width(),
                self.spec_height(),
                width,
                height,
            ),
    {
        let data = resize_triangle(self.data.as_slice(), self.width, self.height, width, height);
        RgbPixels { width, height, data }
    }
}

spec fn width_bound(width: u32, height: u32) -> int {
    width as int * height as int * 3
}

/// The colour of the pixel in column `x` of row `y` of an image `width`
/// pixels wide.
pub open spec fn pixel_at(data: Seq<u8>, width: u32, x: u32, y: u32) -> Rgb {
    let i = (y as int * width as int + x as int) * 3;
    Rgb { r: data[i], g: data[i + 1], b: data[i + 2] }
}

proof fn lemma_pixel_index(width: u32, height: u32, x: u32, y: u32)
    requires
        x < width,
        y < height,
    ensures
        ((y as int * width as int + x as int) * 3 + 2) < (width as int * height as int * 3),
{
    assert((y as int * width as int + x as int) < (width as int * height as int)) by (nonlinear_arith)
        requires
            x < width,
            y < height,
    ;
}

/// The pixels of an RGB image of `width` by `height` pixels scaled to
/// `new_width` by `new_height` with the triangle filter of the `image` crate.
pub uninterp spec fn triangle_resize(
    data: Seq<u8>,
    width: u32,
    height: u32,
    new_width: u32,
    new_height: u32,
) -> Seq<u8>;

/// Scales an RGB image with `image::imageops::resize` and
/// `FilterType::Triangle`.
///
/// The result is named as a function of the pixels and the four dimensions;
/// the contract also states that it holds `new_width * new_height` pixels, the
/// size of the buffer that `resize` allocates. Both buffers that `resize`
/// allocates must fit in memory: the result, and an intermediate image of
/// `width * new_height` pixels of four `f32` channels.
#[verifier::external_body]
fn resize_triangle(data: &[u8], width: u32, height: u32, new_width: u32, new_height: u32) -> (r: Vec<
    u8,
>)
    requires
        data@.len() == width as int * height as int * 3,
        width > 0,
        height > 0,
        new_width > 0,
        new_height > 0,
        new_width as int * new_height as int * 3 <= isize::MAX,
        width as int * new_height as int * 16 <= isize::MAX,
    ensures
        r@ == triangle_resize(data@, width, height, new_width, new_height),
        r@.len() == new_width as int * new_height as int * 3,
{
    let image = image::RgbImage::from_raw(width, height, data.to_vec()).unwrap();
    image::imageops::resize(&image, new_width, new_height, image::imageops::FilterType::Triangle)
        .into_raw()
}

/// A 24-bit colour.
#[derive(Clone, Copy, Debug, PartialEq, Eq, Structural)]
pub struct Rgb {
    pub r: u8,
    pub g: u8,
    pub b: u8,
}

/// One character cell of ANSI art: nothing, or a glyph in a colour.
#[derive(Clone, Copy, Debug, PartialEq, Eq, Structural)]
pub enum ArtCell {
    Blank,
    Glyph { ch: char, color: Rgb },
}

/// The escape that sets the foreground to a 24-bit colour:
/// `ESC [ 3 8 ; 2 ; r ; g ; b m`.
pub open spec fn color_escape(c: Rgb) -> Seq<char> {
    seq!['\x1b', '[', '3', '8', ';', '2', ';'] + decimal(c.r as nat) + seq![';'] + decimal(
        c.g as nat,
    ) + seq![';'] + decimal(c.b as nat) + seq!['m']
}

/// The escape that restores the default colours: `ESC [ 0 m`.
pub open spec fn reset_escape() -> Seq<char> {
    seq!['\x1b', '[', '0', 'm']
}

/// The text of one cell, given the colour in effect before it, and the colour
/// in effect after it. A blank is a space with the colour reset first if one
/// is set; a glyph gets its colour escape unless that colour is already set.
pub open spec fn cell_text(cur: Option<Rgb>, cell: ArtCell) -> (Seq<char>, Option<Rgb>) {
    match cell {
        ArtCell::Blank => (
            if cur is Some {
                reset_escape().push(' ')
            } else {
                seq![' ']
            },
            None,
        ),
        ArtCell::Glyph { ch, color } => (
            if cur == Some(color) {
                seq![ch]
            } else {
                color_escape(color).push(ch)
            },
            Some(color),
        ),
    }
}

/// The text of a run of cells starting with the default colours, and the
/// colour in effect after it.
pub open spec fn cells_text(cells: Seq<ArtCell>) -> (Seq<char>, Option<Rgb>)
    decreases cells.len(),
{
    if cells.len() == 0 {
        (seq![], None)
    } else {
        let prev = cells_text(cells.drop_last());
        let step = cell_text(prev.1, cells.last());
        (prev.0 + step.0, step.1)
    }
}

/// The text of one row: its cells, then a reset (always, or only when a
/// colour is still set), then a line break.
pub open spec fn row_text(cells: Seq<ArtCell>, reset_every_row: bool) -> Seq<char> {
    let body = cells_text(cells);
    if reset_every_row || body.1 is Some {
        body.0 + reset_escape() + seq!['\n']
    } else {
        body.0 + seq!['\n']
    }
}

/// The text of all rows, one after the other.
pub open spec fn art_text(rows: Seq<Seq<ArtCell>>, reset_every_row: bool) -> Seq<char>
    decreases rows.len(),
{
    if rows.len() == 0 {
        seq![]
    } else {
        art_text(rows.drop_last(), reset_every_row) + row_text(rows.last(), reset_every_row)
    }
}

/// The colour a run of cells leaves in effect is that of its last cell: none
/// after a blank or an empty run, the glyph's own after a glyph. So every
/// glyph is printed in its own colour, and a colour escape is sent only when
/// the glyph before it had another colour or there was none.
pub proof fn law_colour_follows_last_cell(cells: Seq<ArtCell>)
    ensures
        cells_text(cells).1 == if cells.len() == 0 {
            None
        } else {
            match cells.last() {
                ArtCell::Blank => None,
                ArtCell::Glyph { ch, color } => Some(color),
            }
        },
        cells.len() > 0 ==> (cells.last() matches ArtCell::Glyph { ch, color } ==> cells_text(
            cells,
        ).0 == cells_text(cells.drop_last()).0 + if cells_text(cells.drop_last()).1 == Some(
            color,
        ) {
            seq![ch]
        } else {
            color_escape(color).push(ch)
        }),
{
}

/// Every row ends on the default colours: whatever colour its cells leave
/// in effect, the row's text closes with a line break preceded by a reset
/// whenever a colour is still set.
pub proof fn law_rows_end_uncoloured(cells: Seq<ArtCell>, reset_every_row: bool)
    ensures
        cells_text(cells).1 is Some ==> row_text(cells, reset_every_row) == cells_text(cells).0
            + reset_escape() + seq!['\n'],
        row_text(cells, reset_every_row).last() == '\n',
{
}

/// What a terminal shows of `text`, and whether `text` ends inside an escape
/// sequence: an escape runs from ESC up to and including the next `m` and
/// shows nothing; every other character shows as itself.
pub open spec fn shown(text: Seq<char>) -> (Seq<char>, bool)
    decreases text.len(),
{
    if text.len() == 0 {
        (seq![], false)
    } else {
        let prev = shown(text.drop_last());
        let c = text.last();
        if prev.1 {
            (prev.0, c != 'm')
        } else if c == '\x1b' {
            (prev.0, true)
        } else {
            (prev.0.push(c), false)
        }
    }
}

/// The character a cell shows: its glyph, or a space for a blank.
pub open spec fn cell_char(cell: ArtCell) -> char {
    match cell {
        ArtCell::Blank => ' ',
        ArtCell::Glyph { ch, .. } => ch,
    }
}

/// The characters a row of cells shows, one per cell.
pub open spec fn row_chars(cells: Seq<ArtCell>) -> Seq<char> {
    Seq::new(cells.len(), |i: int| cell_char(cells[i]))
}

/// The lines a grid of cells shows: each row's characters, then a line break.
pub open spec fn grid_lines(rows: Seq<Seq<ArtCell>>) -> Seq<char>
    decreases rows.len(),
{
    if rows.len() == 0 {
        seq![]
    } else {
        grid_lines(rows.drop_last()) + row_chars(rows.last()).push('\n')
    }
}

/// No cell of the grid holds the escape character as its glyph.
pub open spec fn escape_free(rows: Seq<Seq<ArtCell>>) -> bool {
    forall|r: int, i: int|
        0 <= r < rows.len() && 0 <= i < rows[r].len() ==> cell_char(#[trigger] rows[r][i]) != '\x1b'
}

spec fn has_no_m(s: Seq<char>) -> bool {
    forall|i: int| 0 <= i < s.len() ==> s[i] != 'm'
}

proof fn lemma_shown_empty()
    ensures
        shown(Seq::<char>::empty()) == (Seq::<char>::empty(), false),
{
}

proof fn lemma_shown_push(s: Seq<char>, c: char)
    ensures
        shown(s.push(c)) == (if shown(s).1 {
            (shown(s).0, c != 'm')
        } else if c == '\x1b' {
            (shown(s).0, true)
        } else {
            (shown(s).0.push(c), false)
        }),
{
    assert(s.push(c).drop_last() =~= s);
}

/// Text after a point outside any escape shows on its own.
proof fn lemma_shown_append(a: Seq<char>, b: Seq<char>)
    requires
        !shown(a).1,
    ensures
        shown(a + b) == (shown(a).0 + shown(b).0, shown(b).1),
    decreases b.len(),
{
    if b.len() == 0 {
        lemma_shown_empty();
        assert(a + b =~= a);
        assert(shown(a).0 + shown(b).0 =~= shown(a).0);
    } else {
        let b0 = b.drop_last();
        lemma_shown_append(a, b0);
        assert(a + b =~= (a + b0).push(b.last()));
        assert(b =~= b0.push(b.last()));
        lemma_shown_push(a + b0, b.last());
        lemma_shown_push(b0, b.last());
        assert(shown(a).0 + shown(b0).0.push(b.last()) =~= (shown(a).0 + shown(b0).0).push(
            b.last(),
        ));
    }
}

/// Inside an escape, text without an `m` shows nothing and leaves it open.
proof fn lemma_shown_in_escape(a: Seq<char>, b: Seq<char>)
    requires
        shown(a).1,
        has_no_m(b),
    ensures
        shown(a + b) == shown(a),
    decreases b.len(),
{
    if b.len() == 0 {
        assert(a + b =~= a);
    } else {
        let b0 = b.drop_last();
        assert(has_no_m(b0));
        lemma_shown_in_escape(a, b0);
        assert(a + b =~= (a + b0).push(b.last()));
        lemma_shown_push(a + b0, b.last());
    }
}

proof fn lemma_no_m_concat(a: Seq<char>, b: Seq<char>)
    requires
        has_no_m(a),
        has_no_m(b),
    ensures
        has_no_m(a + b),
{
    assert forall|i: int| 0 <= i < (a + b).len() implies (a + b)[i] != 'm' by {
        if i >= a.len() {
            assert((a + b)[i] == b[i - a.len()]);
        }
    }
}

proof fn lemma_decimal_no_m(n: nat)
    ensures
        has_no_m(decimal(n)),
    decreases n,
{
    let d = if n < 10 { n } else { n % 10 };
    assert(48 <= d + 48 <= 57);
    let c = ((d + 48) as u32) as char;
    assert(c as u32 == d + 48);
    if n >= 10 {
        lemma_decimal_no_m(n / 10);
        let s = decimal(n / 10);
        assert forall|i: int| 0 <= i < s.push(c).len() implies s.push(c)[i] != 'm' by {
            if i < s.len() {
                assert(s.push(c)[i] == s[i]);
            }
        }
    }
}

/// An escape that starts with ESC, holds no other `m` and ends in `m` shows
/// nothing.
proof fn lemma_escape_shows_nothing(body: Seq<char>)
    requires
        has_no_m(body),
    ensures
        shown((seq!['\x1b'] + body).push('m')) == (Seq::<char>::empty(), false),
{
    lemma_shown_empty();
    lemma_shown_push(Seq::<char>::empty(), '\x1b');
    assert(Seq::<char>::empty().push('\x1b') =~= seq!['\x1b']);
    lemma_shown_in_escape(seq!['\x1b'], body);
    lemma_shown_push(seq!['\x1b'] + body, 'm');
}

proof fn lemma_literal_no_m(s: Seq<char>)
    requires
        s.len() <= 6,
        s.len() > 0 ==> s[0] != 'm',
        s.len() > 1 ==> s[1] != 'm',
        s.len() > 2 ==> s[2] != 'm',
        s.len() > 3 ==> s[3] != 'm',
        s.len() > 4 ==> s[4] != 'm',
        s.len() > 5 ==> s[5] != 'm',
    ensures
        has_no_m(s),
{
}

proof fn lemma_color_escape_shows_nothing(c: Rgb)
    ensures
        shown(color_escape(c)) == (Seq::<char>::empty(), false),
{
    let head: Seq<char> = seq!['[', '3', '8', ';', '2', ';'];
    let semi: Seq<char> = seq![';'];
    lemma_literal_no_m(head);
    lemma_literal_no_m(semi);
    lemma_decimal_no_m(c.r as nat);
    lemma_decimal_no_m(c.g as nat);
    lemma_decimal_no_m(c.b as nat);
    let body = head + decimal(c.r as nat) + semi + decimal(c.g as nat) + semi + decimal(
        c.b as nat,
    );
    lemma_no_m_concat(head, decimal(c.r as nat));
    lemma_no_m_concat(head + decimal(c.r as nat), semi);
    lemma_no_m_concat(head + decimal(c.r as nat) + semi, decimal(c.g as nat));
    lemma_no_m_concat(head + decimal(c.r as nat) + semi + decimal(c.g as nat), semi);
    lemma_no_m_concat(
        head + decimal(c.r as nat) + semi + decimal(c.g as nat) + semi,
        decimal(c.b as nat),
    );
    lemma_escape_shows_nothing(body);
    assert(color_escape(c) =~= (seq!['\x1b'] + body).push('m'));
}

proof fn lemma_reset_escape_shows_nothing()
    ensures
        shown(reset_escape()) == (Seq::<char>::empty(), false),
{
    let body: Seq<char> = seq!['[', '0'];
    lemma_literal_no_m(body);
    lemma_escape_shows_nothing(body);
    assert(reset_escape() =~= (seq!['\x1b'] + body).push('m'));
}

proof fn lemma_cell_text_shown(cur: Option<Rgb>, cell: ArtCell)
    requires
        cell_char(cell) != '\x1b',
    ensures
        shown(cell_text(cur, cell).0) == (seq![cell_char(cell)], false),
{
    lemma_shown_empty();
    let e = Seq::<char>::empty();
    lemma_shown_push(e, cell_char(cell));
    assert(e.push(cell_char(cell)) =~= seq![cell_char(cell)]);
    assert(e.push(cell_char(cell)) =~= seq![cell_char(cell)]);
    match cell {
        ArtCell::Blank => {
            if cur is Some {
                lemma_reset_escape_shows_nothing();
                lemma_shown_push(reset_escape(), ' ');
            }
        },
        ArtCell::Glyph { ch, color } => {
            if cur != Some(color) {
                lemma_color_escape_shows_nothing(color);
                lemma_shown_push(color_escape(color), ch);
            }
        },
    }
}

proof fn lemma_cells_text_shown(cells: Seq<ArtCell>)
    requires
        forall|i: int| 0 <= i < cells.len() ==> cell_char(#[trigger] cells[i]) != '\x1b',
    ensures
        shown(cells_text(cells).0) == (row_chars(cells), false),
    decreases cells.len(),
{
    if cells.len() == 0 {
        lemma_shown_empty();
        assert(row_chars(cells) =~= Seq::<char>::empty());
    } else {
        let rest = cells.drop_last();
        lemma_cells_text_shown(rest);
        let prev = cells_text(rest);
        let step = cell_text(prev.1, cells.last());
        lemma_cell_text_shown(prev.1, cells.last());
        lemma_shown_append(prev.0, step.0);
        assert(row_chars(rest) + seq![cell_char(cells.last())] =~= row_chars(cells));
    }
}

proof fn lemma_row_text_shown(cells: Seq<ArtCell>, reset_every_row: bool)
    requires
        forall|i: int| 0 <= i < cells.len() ==> cell_char(#[trigger] cells[i]) != '\x1b',
    ensures
        shown(row_text(cells, reset_every_row)) == (row_chars(cells).push('\n'), false),
{
    let body = cells_text(cells);
    lemma_cells_text_shown(cells);
    let nl: Seq<char> = seq!['\n'];
    lemma_shown_empty();
    lemma_shown_push(Seq::<char>::empty(), '\n');
    assert(Seq::<char>::empty().push('\n') =~= nl);
    if reset_every_row || body.1 is Some {
        lemma_reset_escape_shows_nothing();
        lemma_shown_append(body.0, reset_escape());
        lemma_shown_append(body.0 + reset_escape(), nl);
        assert(row_chars(cells) + Seq::<char>::empty() + nl =~= row_chars(cells).push('\n'));
    } else {
        lemma_shown_append(body.0, nl);
        assert(row_chars(cells) + nl =~= row_chars(cells).push('\n'));
    }
}

/// With the colour escapes taken out, ANSI art shows one line per row: the
/// characters of the row's cells, one per cell (a space for a blank), then a
/// line break. This holds whether or not every row resets the colours, for
/// any grid whose glyphs are not the escape character itself.
pub proof fn law_art_shows_grid_lines(rows: Seq<Seq<ArtCell>>, reset_every_row: bool)
    requires
        escape_free(rows),
    ensures
        shown(art_text(rows, reset_every_row)) == (grid_lines(rows), false),
    decreases rows.len(),
{
    if rows.len() == 0 {
        lemma_shown_empty();
    } else {
        let rest = rows.drop_last();
        assert(escape_free(rest)) by {
            assert forall|r: int, i: int| 0 <= r < rest.len() && 0 <= i < rest[r].len() implies cell_char(
                #[trigger] rest[r][i],
            ) != '\x1b' by {
                assert(rest[r] == rows[r]);
            }
        }
        law_art_shows_grid_lines(rest, reset_every_row);
        let last = rows.last();
        assert forall|i: int| 0 <= i < last.len() implies cell_char(#[trigger] last[i]) != '\x1b' by {
            assert(rows[rows.len() - 1][i] == last[i]);
        }
        lemma_row_text_shown(last, reset_every_row);
        lemma_shown_append(art_text(rest, reset_every_row), row_text(last, reset_every_row));
    }
}

/// The cells of each row.
pub open spec fn rows_view(rows: Seq<Vec<ArtCell>>) -> Seq<Seq<ArtCell>> {
    rows.map_values(|r: Vec<ArtCell>| r@)
}

fn push_u8_decimal(out: &mut Vec<char>, n: u8)
    ensures
        final(out)@ == old(out)@ + decimal(n as nat),
{
    push_decimal(out, n as u64);
}

fn push_color_escape(out: &mut Vec<char>, c: Rgb)
    ensures
        final(out)@ == old(out)@ + color_escape(c),
{
    let ghost start = out@;
    out.push('\x1b');
    out.push('[');
    out.push('3');
    out.push('8');
    out.push(';');
    out.push('2');
    out.push(';');
    push_u8_decimal(out, c.r);
    out.push(';');
    push_u8_decimal(out, c.g);
    out.push(';');
    push_u8_decimal(out, c.b);
    out.push('m');
    assert(out@ =~= start + color_escape(c));
}

fn push_reset(out: &mut Vec<char>)
    ensures
        final(out)@ == old(out)@ + reset_escape(),
{
    out.push('\x1b');
    out.push('[');
    out.push('0');
    out.push('m');
    assert(final(out)@ =~= old(out)@ + reset_escape());
}

/// The escape that sets the foreground colour to `c`.
pub fn ansi_color_escape(c: Rgb) -> (r: String)
    ensures
        r@ == color_escape(c),
{
    let mut out: Vec<char> = Vec::new();
    push_color_escape(&mut out, c);
    assert(out@ =~= color_escape(c));
    string_of(out.as_slice())
}

fn push_cell(out: &mut Vec<char>, cur: Option<Rgb>, cell: ArtCell) -> (next: Option<Rgb>)
    ensures
        final(out)@ == old(out)@ + cell_text(cur, cell).0,
        next == cell_text(cur, cell).1,
{
    match cell {
        ArtCell::Blank => {
            if cur.is_some() {
                push_reset(out);
            }
            out.push(' ');
            assert(final(out)@ =~= old(out)@ + cell_text(cur, cell).0);
            None
        },
        ArtCell::Glyph { ch, color } => {
            let same = match cur {
                Some(c) => c.r == color.r && c.g == color.g && c.b == color.b,
                None => false,
            };
            if !same {
                push_color_escape(out, color);
            }
            out.push(ch);
            assert(final(out)@ =~= old(out)@ + cell_text(cur, cell).0);
            Some(color)
        },
    }
}

fn push_row(out: &mut Vec<char>, cells: &Vec<ArtCell>, reset_every_row: bool)
    ensures
        final(out)@ == old(out)@ + row_text(cells@, reset_every_row),
{
    let ghost start = out@;
    let mut cur: Option<Rgb> = None;
    let mut i: usize = 0;
    while i < cells.len()
        invariant
            i <= cells@.len(),
            out@ == start + cells_text(cells@.take(i as int)).0,
            cur == cells_text(cells@.take(i as int)).1,
        decreases cells@.len() - i,
    {
        let ghost before = out@;
        cur = push_cell(out, cur, cells[i]);
        i = i + 1;
        proof {
            assert(cells@.take(i as int).drop_last() =~= cells@.take(i - 1));
            assert(out@ =~= start + cells_text(cells@.take(i as int)).0);
        }
    }
    assert(cells@.take(cells@.len() as int) =~= cells@);
    if reset_every_row || cur.is_some() {
        push_reset(out);
    }
    out.push('\n');
    assert(out@ =~= start + row_text(cells@, reset_every_row));
}

/// The text of ANSI art made of `rows` of cells. `reset_every_row` restores
/// the default colours at the end of every row; otherwise only at the end of
/// a row that leaves a colour set.
pub fn render_art(rows: &Vec<Vec<ArtCell>>, reset_every_row: bool) -> (r: String)
    ensures
        r@ == art_text(rows_view(rows@), reset_every_row),
{
    let mut out: Vec<char> = Vec::new();
    let mut i: usize = 0;
    while i < rows.len()
        invariant
            i <= rows@.len(),
            out@ == art_text(rows_view(rows@.take(i as int)), reset_every_row),
        decreases rows@.len() - i,
    {
        push_row(&mut out, &rows[i], reset_every_row);
        i = i + 1;
        proof {
            let taken = rows_view(rows@.take(i as int));
            assert(taken.drop_last() =~= rows_view(rows@.take(i - 1)));
            assert(taken.last() == rows@[i - 1]@);
        }
    }
    assert(rows@.take(rows@.len() as int) =~= rows@);
    string_of(out.as_slice())
}

/// The mean of two channel values, rounded down.
pub open spec fn mean_u8(a: u8, b: u8) -> u8 {
    ((a as int + b as int) / 2) as u8
}

/// The block-art cell of a pair of vertically adjacent pixels, given which of
/// them is bright enough to draw: both give a full block in their mean
/// colour, one gives the upper or lower half block in its colour, none gives
/// a blank.
pub open spec fn block_cell_spec(
    upper: Rgb,
    lower: Rgb,
    upper_lit: bool,
    lower_lit: bool,
) -> ArtCell {
    if upper_lit && lower_lit {
        ArtCell::Glyph {
            ch: '\u{2588}',
            color: Rgb {
                r: mean_u8(upper.r, lower.r),
                g: mean_u8(upper.g, lower.g),
                b: mean_u8(upper.b, lower.b),
            },
        }
    } else if upper_lit {
        ArtCell::Glyph { ch: '\u{2580}', color: upper }
    } else if lower_lit {
        ArtCell::Glyph { ch: '\u{2584}', color: lower }
    } else {
        ArtCell::Blank
    }
}

/// A block cell shows which of its two pixels are lit: nothing for neither,
/// the upper half block for the upper one alone in its colour, the lower
/// half block for the lower one alone in its colour, and the full block for
/// both in a colour between theirs (their mean rounded down, their own when
/// they agree). Swapping the two pixels swaps the half blocks and keeps the
/// full block's colour.
pub proof fn law_block_cell(upper: Rgb, lower: Rgb, upper_lit: bool, lower_lit: bool)
    ensures
        block_cell_spec(upper, lower, upper_lit, lower_lit) == ArtCell::Blank <==> (!upper_lit
            && !lower_lit),
        upper_lit && !lower_lit ==> block_cell_spec(upper, lower, upper_lit, lower_lit)
            == (ArtCell::Glyph { ch: '\u{2580}', color: upper }),
        !upper_lit && lower_lit ==> block_cell_spec(upper, lower, upper_lit, lower_lit)
            == (ArtCell::Glyph { ch: '\u{2584}', color: lower }),
        upper_lit && lower_lit ==> (block_cell_spec(upper, lower, upper_lit, lower_lit) matches ArtCell::Glyph {
            ch,
            color,
        } && ch == '\u{2588}' && 2 * color.r <= upper.r + lower.r <= 2 * color.r + 1 && 2
            * color.g <= upper.g + lower.g <= 2 * color.g + 1 && 2 * color.b <= upper.b + lower.b
            <= 2 * color.b + 1),
        upper_lit && lower_lit && upper == lower ==> block_cell_spec(
            upper,
            lower,
            upper_lit,
            lower_lit,
        ) == (ArtCell::Glyph { ch: '\u{2588}', color: upper }),
        block_cell_spec(lower, upper, lower_lit, upper_lit) == match block_cell_spec(
            upper,
            lower,
            upper_lit,
            lower_lit,
        ) {
            ArtCell::Glyph { ch, color } => ArtCell::Glyph {
                ch: if ch == '\u{2580}' {
                    '\u{2584}'
                } else if ch == '\u{2584}' {
                    '\u{2580}'
                } else {
                    ch
                },
                color,
            },
            ArtCell::Blank => ArtCell::Blank,
        },
{
    if upper_lit && lower_lit {
        assert(Rgb { r: mean_u8(upper.r, lower.r), g: mean_u8(upper.g, lower.g), b: mean_u8(upper.b, lower.b) }
            == Rgb { r: mean_u8(lower.r, upper.r), g: mean_u8(lower.g, upper.g), b: mean_u8(lower.b, upper.b) });
    }
}

fn mean_channel(a: u8, b: u8) -> (r: u8)
    ensures
        r == mean_u8(a, b),
{
    ((a as u16 + b as u16) / 2) as u8
}

/// The block-art cell of two vertically adjacent pixels.
pub fn block_cell(upper: Rgb, lower: Rgb, upper_lit: bool, lower_lit: bool) -> (r:
    ArtCell)
    ensures
        r == block_cell_spec(upper, lower, upper_lit, lower_lit),
{
    if upper_lit && lower_lit {
        ArtCell::Glyph {
            ch: '\u{2588}',
            color: Rgb {
                r: mean_channel(upper.r, lower.r),
                g: mean_channel(upper.g, lower.g),
                b: mean_channel(upper.b, lower.b),
            },
        }
    } else if upper_lit {
        ArtCell::Glyph { ch: '\u{2580}', color: upper }
    } else if lower_lit {
        ArtCell::Glyph { ch: '\u{2584}', color: lower }
    } else {
        ArtCell::Blank
    }
}

/// The braille dot that sample `i` of a 2x4 cell lights. Samples are numbered
/// row by row, two per row (sample `i` sits in column `i % 2` of row `i / 2`);
/// bit `b` of a Unicode braille character is dot `b + 1`, and dots 1-3 run
/// down the left column, dots 4-6 down the right column, and dots 7 and 8
/// form the bottom row. So each sample lights the dot in its own place.
pub open spec fn braille_bit(i: int) -> u8 {
    if i == 0 {
        0
    } else if i == 1 {
        3
    } else if i == 2 {
        1
    } else if i == 3 {
        4
    } else if i == 4 {
        2
    } else if i == 5 {
        5
    } else if i == 6 {
        6
    } else {
        7
    }
}

/// The column and row a braille dot bit stands in: bits 0-2 down the left
/// column, bits 3-5 down the right column, bits 6 and 7 along the bottom.
pub open spec fn braille_dot_place(bit: u8) -> (int, int) {
    if bit < 3 {
        (0, bit as int)
    } else if bit < 6 {
        (1, bit as int - 3)
    } else {
        (bit as int - 6, 3)
    }
}

/// Every sample of a braille cell lights the dot in its own place: sample
/// `i`, in column `i % 2` of row `i / 2`, lights the dot standing there.
pub proof fn law_braille_dot_in_place(i: int)
    requires
        0 <= i < 8,
    ensures
        braille_dot_place(braille_bit(i)) == (i % 2, i / 2),
{
}

fn braille_bit_of(i: usize) -> (r: u8)
    requires
        i < 8,
    ensures
        r == braille_bit(i as int),
        r < 8,
{
    if i == 0 {
        0
    } else if i == 1 {
        3
    } else if i == 2 {
        1
    } else if i == 3 {
        4
    } else if i == 4 {
        2
    } else if i == 5 {
        5
    } else if i == 6 {
        6
    } else {
        7
    }
}

/// The dots lit by the first `count` samples of `order`.
pub open spec fn braille_bits(order: Seq<usize>, count: int) -> u8
    decreases count,
{
    if count <= 0 {
        0
    } else {
        braille_bits(order, count - 1) | (1u8 << braille_bit(order[count - 1] as int))
    }
}

/// The sum of channel `c` (0, 1 or 2) of the colours of the first `count`
/// samples of `order`.
pub open spec fn channel_sum(order: Seq<usize>, colors: Seq<Rgb>, count: int, c: int) -> int
    decreases count,
{
    if count <= 0 {
        0
    } else {
        let color = colors[order[count - 1] as int];
        channel_sum(order, colors, count - 1, c) + if c == 0 {
            color.r as int
        } else if c == 1 {
            color.g as int
        } else {
            color.b as int
        }
    }
}

proof fn lemma_channel_sum_bound(order: Seq<usize>, colors: Seq<Rgb>, count: int, c: int)
    requires
        0 <= count,
    ensures
        0 <= channel_sum(order, colors, count, c) <= 255 * count,
    decreases count,
{
    if count > 0 {
        lemma_channel_sum_bound(order, colors, count - 1, c);
    }
}

/// The braille cell of eight samples: `order` lists the samples brightest
/// first and the `count` brightest are lit. No lit sample gives a blank;
/// otherwise the glyph at U+2800 plus the lit dots, in the mean colour of the
/// lit samples (each channel rounded down).
pub open spec fn braille_cell_spec(order: Seq<usize>, colors: Seq<Rgb>, count: int) -> ArtCell {
    if count == 0 {
        ArtCell::Blank
    } else {
        ArtCell::Glyph {
            ch: (0x2800 + braille_bits(order, count)) as char,
            color: Rgb {
                r: (channel_sum(order, colors, count, 0) / count) as u8,
                g: (channel_sum(order, colors, count, 1) / count) as u8,
                b: (channel_sum(order, colors, count, 2) / count) as u8,
            },
        }
    }
}

proof fn lemma_channel_sum_uniform(order: Seq<usize>, colors: Seq<Rgb>, count: int, c: Rgb)
    requires
        0 <= count <= order.len(),
        forall|i: int| 0 <= i < count ==> colors[#[trigger] order[i] as int] == c,
    ensures
        channel_sum(order, colors, count, 0) == count * c.r,
        channel_sum(order, colors, count, 1) == count * c.g,
        channel_sum(order, colors, count, 2) == count * c.b,
    decreases count,
{
    if count > 0 {
        lemma_channel_sum_uniform(order, colors, count - 1, c);
        assert(colors[order[count - 1] as int] == c);
        assert(count * c.r == (count - 1) * c.r + c.r) by (nonlinear_arith);
        assert(count * c.g == (count - 1) * c.g + c.g) by (nonlinear_arith);
        assert(count * c.b == (count - 1) * c.b + c.b) by (nonlinear_arith);
    }
}

/// A braille cell is drawn in the mean colour of its lit samples; when they
/// all have one colour, that is the cell's colour. No sample lit gives a
/// blank.
pub proof fn law_braille_uniform_colour(order: Seq<usize>, colors: Seq<Rgb>, count: int, c: Rgb)
    requires
        0 <= count <= order.len(),
        forall|i: int| 0 <= i < count ==> colors[#[trigger] order[i] as int] == c,
    ensures
        count == 0 ==> braille_cell_spec(order, colors, count) == ArtCell::Blank,
        count > 0 ==> (braille_cell_spec(order, colors, count) matches ArtCell::Glyph { color, .. }
            && color == c),
{
    lemma_channel_sum_uniform(order, colors, count, c);
    if count > 0 {
        vstd::arithmetic::div_mod::lemma_div_multiples_vanish(c.r as int, count);
        vstd::arithmetic::div_mod::lemma_div_multiples_vanish(c.g as int, count);
        vstd::arithmetic::div_mod::lemma_div_multiples_vanish(c.b as int, count);
        assert(count * c.r == c.r * count) by (nonlinear_arith);
        assert(count * c.g == c.g * count) by (nonlinear_arith);
        assert(count * c.b == c.b * count) by (nonlinear_arith);
    }
}

/// The character with code `v`, if `v` is a Unicode scalar value.
///
/// Calls `char::from_u32`, which returns `None` exactly for surrogates and
/// values above U+10FFFF.
#[verifier::external_body]
fn char_from_u32(v: u32) -> (r: Option<char>)
    ensures
        r is Some <==> (v < 0xD800 || (0xE000 <= v && v <= 0x10FFFF)),
        r matches Some(c) ==> c as u32 == v,
{
    char::from_u32(v)
}

/// The braille cell of eight samples, the `count` brightest of which (the
/// first `count` of `order`) are lit.
pub fn braille_cell(order: &[usize], colors: &[Rgb], count: usize) -> (r: ArtCell)
    requires
        order@.len() == 8,
        colors@.len() == 8,
        count <= 8,
        forall|k: int| 0 <= k < count ==> order@[k] < 8,
    ensures
        r == braille_cell_spec(order@, colors@, count as int),
{
    if count == 0 {
        return ArtCell::Blank;
    }
    let mut bits: u8 = 0;
    let mut sum_r: u32 = 0;
    let mut sum_g: u32 = 0;
    let mut sum_b: u32 = 0;
    let mut k: usize = 0;
    while k < count
        invariant
            k <= count <= 8,
            order@.len() == 8,
            colors@.len() == 8,
            forall|j: int| 0 <= j < count ==> order@[j] < 8,
            bits == braille_bits(order@, k as int),
            sum_r == channel_sum(order@, colors@, k as int, 0),
            sum_g == channel_sum(order@, colors@, k as int, 1),
            sum_b == channel_sum(order@, colors@, k as int, 2),
        decreases count - k,
    {
        proof {
            lemma_channel_sum_bound(order@, colors@, k as int, 0);
            lemma_channel_sum_bound(order@, colors@, k as int, 1);
            lemma_channel_sum_bound(order@, colors@, k as int, 2);
        }
        let idx = order[k];
        let bit = braille_bit_of(idx);
        bits = bits | (1u8 << bit);
        let color = colors[idx];
        sum_r = sum_r + color.r as u32;
        sum_g = sum_g + color.g as u32;
        sum_b = sum_b + color.b as u32;
        k = k + 1;
    }
    proof {
        lemma_channel_sum_bound(order@, colors@, count as int, 0);
        lemma_channel_sum_bound(order@, colors@, count as int, 1);
        lemma_channel_sum_bound(order@, colors@, count as int, 2);
    }
    let n = count as u32;
    let color = Rgb { r: (sum_r / n) as u8, g: (sum_g / n) as u8, b: (sum_b / n) as u8 };
    let code: u32 = 0x2800 + bits as u32;
    let ch = match char_from_u32(code) {
        Some(c) => c,
        None => ' ',
    };
    proof {
        vstd::utf8::char_u32_cast(ch, code);
    }
    ArtCell::Glyph { ch, color }
}

// ----------------------------------------------------------------------------
// Grids of cells

/// The ASCII art cell of pixel `(x, y)`: the palette character picked for
/// it, in its colour.
pub open spec fn palette_cell(
    data: Seq<u8>,
    width: u32,
    indices: Seq<usize>,
    palette: Seq<char>,
    x: int,
    y: int,
) -> ArtCell {
    ArtCell::Glyph {
        ch: palette[indices[y * width + x] as int],
        color: pixel_at(data, width, x as u32, y as u32),
    }
}

/// ASCII art cells: each pixel becomes the palette character picked for it,
/// in the pixel's colour. `indices` holds the pick of each pixel, row by row.
pub open spec fn palette_art(
    data: Seq<u8>,
    width: u32,
    height: u32,
    indices: Seq<usize>,
    palette: Seq<char>,
) -> Seq<Seq<ArtCell>> {
    Seq::new(
        height as nat,
        |y: int| Seq::new(width as nat, |x: int| palette_cell(data, width, indices, palette, x, y)),
    )
}

fn palette_cell_at(image: &RgbPixels, indices: &[usize], palette: &[char], x: u32, y: u32) -> (r:
    ArtCell)
    requires
        image.wf(),
        indices@.len() == image.spec_width() as int * image.spec_height() as int,
        forall|i: int| 0 <= i < indices@.len() ==> (#[trigger] indices@[i] as int) < palette@.len(),
        x < image.spec_width(),
        y < image.spec_height(),
    ensures
        r == palette_cell(image.spec_data(), image.spec_width(), indices@, palette@, x as int, y as int),
{
    let w = image.width();
    let h = image.height();
    let _count = indices.len();
    proof {
        assert((y as int) * (w as int) + (x as int) < (w as int) * (h as int)) by (nonlinear_arith)
            requires
                x < w,
                y < h,
        ;
    }
    let at: usize = y as usize * w as usize + x as usize;
    ArtCell::Glyph { ch: palette[indices[at]], color: image.pixel(x, y) }
}

/// The ASCII art cells of `image`, given the palette character picked for
/// each pixel.
pub fn palette_cells(image: &RgbPixels, indices: &[usize], palette: &[char]) -> (r: Vec<
    Vec<ArtCell>,
>)
    requires
        image.wf(),
        indices@.len() == image.spec_width() as int * image.spec_height() as int,
        forall|i: int| 0 <= i < indices@.len() ==> (#[trigger] indices@[i] as int) < palette@.len(),
    ensures
        rows_view(r@) == palette_art(
            image.spec_data(),
            image.spec_width(),
            image.spec_height(),
            indices@,
            palette@,
        ),
{
    let w = image.width();
    let h = image.height();
    let ghost data = image.spec_data();
    let mut rows: Vec<Vec<ArtCell>> = Vec::new();
    let mut y: u32 = 0;
    while y < h
        invariant
            image.wf(),
            w == image.spec_width(),
            h == image.spec_height(),
            data == image.spec_data(),
            indices@.len() == w as int * h as int,
            forall|i: int| 0 <= i < indices@.len() ==> (#[trigger] indices@[i] as int) < palette@.len(),
            y <= h,
            rows@.len() == y,
            forall|r: int|
                0 <= r < y ==> #[trigger] rows@[r]@ == Seq::new(
                    w as nat,
                    |x: int| palette_cell(data, w, indices@, palette@, x, r),
                ),
        decreases h - y,
    {
        let mut cells: Vec<ArtCell> = Vec::new();
        let mut x: u32 = 0;
        while x < w
            invariant
                image.wf(),
                w == image.spec_width(),
                h == image.spec_height(),
                data == image.spec_data(),
                indices@.len() == w as int * h as int,
                forall|i: int| 0 <= i < indices@.len() ==> (#[trigger] indices@[i] as int) < palette@.len(),
                y < h,
                x <= w,
                cells@.len() == x,
                forall|c: int|
                    0 <= c < x ==> #[trigger] cells@[c] == palette_cell(data, w, indices@, palette@, c, y as int),
            decreases w - x,
        {
            let cell = palette_cell_at(image, indices, palette, x, y);
            cells.push(cell);
            x = x + 1;
        }
        assert(cells@ =~= Seq::new(w as nat, |x: int| palette_cell(data, w, indices@, palette@, x, y as int)));
        rows.push(cells);
        y = y + 1;
    }
    assert(rows_view(rows@) =~= palette_art(data, w, h, indices@, palette@));
    rows
}

/// The ASCII art text of `image`, given the palette character picked for
/// each pixel, with the colours reset at the end of every row; `None` when
/// the palette is empty and there is nothing to draw with.
pub fn palette_art_text(image: &RgbPixels, indices: &[usize], palette: &[char]) -> (r: Option<
    String,
>)
    requires
        image.wf(),
        indices@.len() == image.spec_width() as int * image.spec_height() as int,
        palette@.len() > 0 ==> forall|i: int|
            0 <= i < indices@.len() ==> (#[trigger] indices@[i] as int) < palette@.len(),
    ensures
        r is None <==> palette@.len() == 0,
        r matches Some(s) ==> s@ == art_text(
            palette_art(
                image.spec_data(),
                image.spec_width(),
                image.spec_height(),
                indices@,
                palette@,
            ),
            true,
        ),
{
    if palette.len() == 0 {
        return None;
    }
    let cells = palette_cells(image, indices, palette);
    Some(render_art(&cells, true))
}

/// The lower pixel row of block row `row` in an image `height` pixels high:
/// the row below the upper one, or the last row when there is none.
pub open spec fn lower_row(row: int, height: u32) -> int {
    if 2 * row + 1 < height {
        2 * row + 1
    } else {
        height - 1
    }
}

/// Block art cells: block row `row` of column `col` is made of pixel row
/// `2 * row` and the row below it (the last row when there is none); `lit`
/// says for each pixel, row by row, whether it is bright enough to draw.
pub open spec fn block_art(
    data: Seq<u8>,
    width: u32,
    height: u32,
    lit: Seq<bool>,
    cols: u32,
    rows: u32,
) -> Seq<Seq<ArtCell>> {
    Seq::new(
        rows as nat,
        |row: int|
            Seq::new(
                cols as nat,
                |col: int|
                    block_cell_spec(
                        pixel_at(data, width, col as u32, (2 * row) as u32),
                        pixel_at(data, width, col as u32, lower_row(row, height) as u32),
                        lit[2 * row * width + col],
                        lit[lower_row(row, height) * width + col],
                    ),
            ),
    )
}

/// The block art cells of `cols` by `rows` characters of `image`, which holds
/// two pixel rows per character row, given which pixels are lit.
pub fn block_cells(image: &RgbPixels, lit: &[bool], cols: u32, rows: u32) -> (r: Vec<
    Vec<ArtCell>,
>)
    requires
        image.wf(),
        lit@.len() == image.spec_width() as int * image.spec_height() as int,
        cols <= image.spec_width(),
        2 * rows <= image.spec_height(),
    ensures
        rows_view(r@) == block_art(
            image.spec_data(),
            image.spec_width(),
            image.spec_height(),
            lit@,
            cols,
            rows,
        ),
{
    let w = image.width();
    let h = image.height();
    let ghost spec = block_art(image.spec_data(), w, h, lit@, cols, rows);
    let n = lit.len();
    let mut out: Vec<Vec<ArtCell>> = Vec::new();
    let mut row: u32 = 0;
    while row < rows
        invariant
            image.wf(),
            w == image.spec_width(),
            h == image.spec_height(),
            spec == block_art(image.spec_data(), w, h, lit@, cols, rows),
            n == lit@.len(),
            lit@.len() == w as int * h as int,
            cols <= w,
            2 * rows <= h,
            row <= rows,
            out@.len() == row,
            forall|r: int| 0 <= r < row ==> #[trigger] out@[r]@ == spec[r],
        decreases rows - row,
    {
        let y0: u32 = 2 * row;
        let y1: u32 = if 2 * row + 1 < h {
            2 * row + 1
        } else {
            h - 1
        };
        let mut cells: Vec<ArtCell> = Vec::new();
        let mut col: u32 = 0;
        while col < cols
            invariant
                image.wf(),
                w == image.spec_width(),
                h == image.spec_height(),
                spec == block_art(image.spec_data(), w, h, lit@, cols, rows),
                n == lit@.len(),
                lit@.len() == w as int * h as int,
                cols <= w,
                2 * rows <= h,
                row < rows,
                y0 == 2 * row,
                y1 == lower_row(row as int, h),
                y0 < h,
                y1 < h,
                col <= cols,
                cells@.len() == col,
                forall|c: int| 0 <= c < col ==> #[trigger] cells@[c] == spec[row as int][c],
            decreases cols - col,
        {
            proof {
                lemma_pixel_index(w, h, col, y0);
                lemma_pixel_index(w, h, col, y1);
                assert((y0 as int) * (w as int) + (col as int) < (w as int) * (h as int)) by (nonlinear_arith)
                    requires
                        col < w,
                        y0 < h,
                ;
                assert((y1 as int) * (w as int) + (col as int) < (w as int) * (h as int)) by (nonlinear_arith)
                    requires
                        col < w,
                        y1 < h,
                ;
            }
            let upper = image.pixel(col, y0);
            let lower = image.pixel(col, y1);
            let upper_lit = lit[y0 as usize * w as usize + col as usize];
            let lower_lit = lit[y1 as usize * w as usize + col as usize];
            cells.push(block_cell(upper, lower, upper_lit, lower_lit));
            col = col + 1;
        }
        assert(cells@ =~= spec[row as int]);
        out.push(cells);
        row = row + 1;
    }
    assert(rows_view(out@) =~= spec);
    out
}

/// The eight samples of braille cell `(col, row)`, row by row: pixel
/// `(2 * col + i % 2, 4 * row + i / 2)` for sample `i`.
pub open spec fn braille_samples(data: Seq<u8>, width: u32, col: int, row: int) -> Seq<Rgb> {
    Seq::new(8, |i: int| pixel_at(data, width, (2 * col + i % 2) as u32, (4 * row + i / 2) as u32))
}

/// Braille art cells: each character covers a 2x4 block of pixels; `orders`
/// and `counts` give, for each character row by row, its samples from the
/// brightest down and how many of them are lit.
pub open spec fn braille_art(
    data: Seq<u8>,
    width: u32,
    orders: Seq<Seq<usize>>,
    counts: Seq<usize>,
    cols: u32,
    rows: u32,
) -> Seq<Seq<ArtCell>> {
    Seq::new(
        rows as nat,
        |row: int|
            Seq::new(
                cols as nat,
                |col: int|
                    braille_cell_spec(
                        orders[row * cols + col],
                        braille_samples(data, width, col, row),
                        counts[row * cols + col] as int,
                    ),
            ),
    )
}

/// The orders of all cells, as sequences.
pub open spec fn orders_view(orders: Seq<Vec<usize>>) -> Seq<Seq<usize>> {
    orders.map_values(|o: Vec<usize>| o@)
}

/// The braille art cells of `cols` by `rows` characters of `image`, which
/// holds two pixel columns and four pixel rows per character.
pub fn braille_cells(
    image: &RgbPixels,
    orders: &Vec<Vec<usize>>,
    counts: &[usize],
    cols: u32,
    rows: u32,
) -> (r: Vec<Vec<ArtCell>>)
    requires
        image.wf(),
        2 * cols <= image.spec_width(),
        4 * rows <= image.spec_height(),
        orders@.len() == cols as int * rows as int,
        counts@.len() == cols as int * rows as int,
        forall|i: int| 0 <= i < orders@.len() ==> (#[trigger] orders@[i])@.len() == 8,
        forall|i: int, k: int| 0 <= i < orders@.len() && 0 <= k < 8 ==> #[trigger] orders@[i]@[k] < 8,
        forall|i: int| 0 <= i < counts@.len() ==> #[trigger] counts@[i] <= 8,
    ensures
        rows_view(r@) == braille_art(
            image.spec_data(),
            image.spec_width(),
            orders_view(orders@),
            counts@,
            cols,
            rows,
        ),
{
    let w = image.width();
    let h = image.height();
    let ghost spec = braille_art(image.spec_data(), w, orders_view(orders@), counts@, cols, rows);
    let n = orders.len();
    let mut out: Vec<Vec<ArtCell>> = Vec::new();
    let mut row: u32 = 0;
    while row < rows
        invariant
            image.wf(),
            w == image.spec_width(),
            h == image.spec_height(),
            spec == braille_art(image.spec_data(), w, orders_view(orders@), counts@, cols, rows),
            n == orders@.len(),
            2 * cols <= w,
            4 * rows <= h,
            orders@.len() == cols as int * rows as int,
            counts@.len() == cols as int * rows as int,
            forall|i: int| 0 <= i < orders@.len() ==> (#[trigger] orders@[i])@.len() == 8,
            forall|i: int, k: int|
                0 <= i < orders@.len() && 0 <= k < 8 ==> #[trigger] orders@[i]@[k] < 8,
            forall|i: int| 0 <= i < counts@.len() ==> #[trigger] counts@[i] <= 8,
            row <= rows,
            out@.len() == row,
            forall|r: int| 0 <= r < row ==> #[trigger] out@[r]@ == spec[r],
        decreases rows - row,
    {
        let mut cells: Vec<ArtCell> = Vec::new();
        let mut col: u32 = 0;
        while col < cols
            invariant
                image.wf(),
                w == image.spec_width(),
                h == image.spec_height(),
                spec == braille_art(image.spec_data(), w, orders_view(orders@), counts@, cols, rows),
                n == orders@.len(),
                2 * cols <= w,
                4 * rows <= h,
                orders@.len() == cols as int * rows as int,
                counts@.len() == cols as int * rows as int,
                forall|i: int| 0 <= i < orders@.len() ==> (#[trigger] orders@[i])@.len() == 8,
                forall|i: int, k: int|
                    0 <= i < orders@.len() && 0 <= k < 8 ==> #[trigger] orders@[i]@[k] < 8,
                forall|i: int| 0 <= i < counts@.len() ==> #[trigger] counts@[i] <= 8,
                row < rows,
                col <= cols,
                cells@.len() == col,
                forall|c: int| 0 <= c < col ==> #[trigger] cells@[c] == spec[row as int][c],
            decreases cols - col,
        {
            let mut colors: Vec<Rgb> = Vec::new();
            let mut k: u32 = 0;
            while k < 8
                invariant
                    image.wf(),
                    w == image.spec_width(),
                    h == image.spec_height(),
                    2 * cols <= w,
                    4 * rows <= h,
                    row < rows,
                    col < cols,
                    k <= 8,
                    colors@ == braille_samples(image.spec_data(), w, col as int, row as int).take(
                        k as int,
                    ),
                decreases 8 - k,
            {
                let x = 2 * col + k % 2;
                let y = 4 * row + k / 2;
                colors.push(image.pixel(x, y));
                k = k + 1;
                assert(colors@ =~= braille_samples(image.spec_data(), w, col as int, row as int).take(
                    k as int,
                ));
            }
            assert(colors@ =~= braille_samples(image.spec_data(), w, col as int, row as int));
            proof {
                assert((row as int) * (cols as int) + (col as int) < (cols as int) * (rows as int))
                    by (nonlinear_arith)
                    requires
                        row < rows,
                        col < cols,
                ;
            }
            let i: usize = row as usize * cols as usize + col as usize;
            assert(orders_view(orders@)[i as int] == orders@[i as int]@);
            proof {
                assert forall|j: int| 0 <= j < counts@[i as int] implies (#[trigger] orders@[i as int]@[j]) < 8 by {
                    assert(orders@[i as int]@[j] < 8);
                }
            }
            cells.push(braille_cell(orders[i].as_slice(), colors.as_slice(), counts[i]));
            col = col + 1;
        }
        assert(cells@ =~= spec[row as int]);
        out.push(cells);
        row = row + 1;
    }
    assert(rows_view(out@) =~= spec);
    out
}

} // verus!
