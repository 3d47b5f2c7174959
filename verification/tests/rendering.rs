use tui_gpu::ansi::{
    ansi_color_escape, block_cell, block_cells, braille_cell, braille_cells, palette_art_text, palette_cells,
    render_art, ArtCell, Rgb, RgbPixels,
};
use tui_gpu::atlas::{atlas_pixels, glyph_origin, ATLAS_HEIGHT, ATLAS_WIDTH};
use tui_gpu::gpu::{align_to, padded_rgba_to_rgb, workgroup_count, ReadbackLayout};
use tui_gpu::screen::{apply_cell_colors, cell_colors, write_cell_char};

const PALETTE: &str = " .:-=+*#%@";

fn rgb(r: u8, g: u8, b: u8) -> Rgb {
    Rgb { r, g, b }
}

fn image(width: u32, height: u32, f: impl Fn(u32, u32) -> [u8; 3]) -> RgbPixels {
    let mut data = Vec::new();
    for y in 0..height {
        for x in 0..width {
            data.extend_from_slice(&f(x, y));
        }
    }
    RgbPixels::new(width, height, data).unwrap()
}

#[test]
fn converts_to_ansi() {
    let img = image(2, 2, |x, y| match (x, y) {
        (0, 0) => [255, 0, 0],
        (1, 0) => [0, 255, 0],
        (0, 1) => [0, 0, 255],
        _ => [255, 255, 0],
    });
    let palette: Vec<char> = PALETTE.chars().collect();
    let resized = img.resized(2, 2);
    // Palette steps of red, green, blue and yellow by their luminance.
    let indices = vec![2, 6, 1, 8];
    let ansi = palette_art_text(&resized, &indices, &palette).unwrap();
    assert_eq!(ansi, render_art(&palette_cells(&resized, &indices, &palette), true));
    assert!(ansi.contains("\x1b[38;2;255;0;0m"));
    assert!(ansi.contains("\x1b[38;2;0;255;0m"));
    assert!(ansi.contains("\x1b[38;2;0;0;255m"));
    assert_eq!(
        ansi,
        "\x1b[38;2;255;0;0m:\x1b[38;2;0;255;0m*\x1b[0m\n\x1b[38;2;0;0;255m.\x1b[38;2;255;255;0m%\x1b[0m\n"
    );
}

#[test]
fn braille_converter_outputs_unicode() {
    let img = image(2, 4, |_, _| [255, 255, 255]);
    let resized = img.resized(2, 4);
    // Equal samples keep their order; all eight are lit.
    let orders = vec![vec![0, 1, 2, 3, 4, 5, 6, 7]];
    let art = render_art(&braille_cells(&resized, &orders, &[8], 1, 1), false);
    assert!(art.chars().any(|c| c >= '\u{2800}' && c <= '\u{28FF}'));
    assert_eq!(art, "\x1b[38;2;255;255;255m\u{28FF}\x1b[0m\n");
}

#[test]
fn braille_top_right_sample_raises_dot_four() {
    let img = image(2, 4, |x, y| if (x, y) == (1, 0) { [255, 255, 255] } else { [0, 0, 0] });
    let resized = img.resized(2, 4);
    // Sample 1 is the brightest and the only one lit.
    let orders = vec![vec![1, 0, 2, 3, 4, 5, 6, 7]];
    let art = render_art(&braille_cells(&resized, &orders, &[1], 1, 1), false);
    assert_eq!(art, "\x1b[38;2;255;255;255m\u{2808}\x1b[0m\n");
}

#[test]
fn braille_samples_map_to_their_dots() {
    let colors = vec![rgb(8, 8, 8); 8];
    let dots = [0x01u32, 0x08, 0x02, 0x10, 0x04, 0x20, 0x40, 0x80];
    for sample in 0..8usize {
        let mut order = vec![sample];
        order.extend((0..8).filter(|&i| i != sample));
        let expected = char::from_u32(0x2800 + dots[sample]).unwrap();
        assert_eq!(
            braille_cell(&order, &colors, 1),
            ArtCell::Glyph { ch: expected, color: rgb(8, 8, 8) }
        );
    }
}

#[test]
fn braille_cells_walk_two_by_four_blocks() {
    // Two characters side by side over a 4x4 image; the second one's
    // bottom-left pixel is red.
    let img = image(4, 4, |x, y| if (x, y) == (2, 3) { [200, 0, 0] } else { [0, 0, 0] });
    let orders = vec![vec![0, 1, 2, 3, 4, 5, 6, 7], vec![6, 0, 1, 2, 3, 4, 5, 7]];
    let cells = braille_cells(&img, &orders, &[0, 1], 2, 1);
    assert_eq!(
        cells,
        vec![vec![ArtCell::Blank, ArtCell::Glyph { ch: '\u{2840}', color: rgb(200, 0, 0) }]]
    );
}

#[test]
fn block_converter_emits_block_chars() {
    let img = image(1, 2, |_, y| if y == 0 { [255, 255, 255] } else { [0, 0, 0] });
    let resized = img.resized(1, 2);
    // White is lit, black is not.
    let lit = vec![true, false];
    let art = render_art(&block_cells(&resized, &lit, 1, 1), false);
    assert!(art.contains('▀') || art.contains('▄') || art.contains('█'));
    assert_eq!(art, "\x1b[38;2;255;255;255m▀\x1b[0m\n");
}

#[test]
fn block_cells_pair_pixel_rows() {
    // Two character rows over a 2x4 image: rows 0 and 1, then rows 2 and 3.
    let img = image(2, 4, |x, y| [(10 * y + x) as u8, 0, 0]);
    let lit = vec![true, false, false, true, true, true, false, false];
    let cells = block_cells(&img, &lit, 2, 2);
    assert_eq!(
        cells,
        vec![
            vec![
                ArtCell::Glyph { ch: '▀', color: rgb(0, 0, 0) },
                ArtCell::Glyph { ch: '▄', color: rgb(11, 0, 0) },
            ],
            vec![
                ArtCell::Glyph { ch: '▀', color: rgb(20, 0, 0) },
                ArtCell::Glyph { ch: '▀', color: rgb(21, 0, 0) },
            ],
        ]
    );
}

#[test]
fn empty_palette_draws_nothing() {
    let img = image(2, 1, |_, _| [9, 9, 9]);
    assert_eq!(palette_art_text(&img, &[0, 0], &[]), None);
}

fn shown(text: &str) -> String {
    let mut out = String::new();
    let mut in_escape = false;
    for c in text.chars() {
        if in_escape {
            in_escape = c != 'm';
        } else if c == '\x1b' {
            in_escape = true;
        } else {
            out.push(c);
        }
    }
    out
}

#[test]
fn art_shows_one_line_per_row_without_escapes() {
    let img = image(3, 2, |x, y| [(40 * x + y) as u8, 7, 200]);
    let palette = vec!['m', '#', ' '];
    let text = palette_art_text(&img, &[0, 1, 2, 2, 1, 0], &palette).unwrap();
    assert_eq!(shown(&text), "m# \n #m\n");
    assert_eq!(text.lines().count(), 2);
    assert!(text.lines().all(|l| l.ends_with("\x1b[0m")));
    let lit = vec![true, false, true, false, true, true];
    let blocks = render_art(&block_cells(&img, &lit, 3, 1), false);
    assert_eq!(shown(&blocks), "▀▄█\n");
}

#[test]
fn palette_cells_pick_per_pixel() {
    let img = image(3, 1, |x, _| [x as u8, 1, 2]);
    let palette = vec!['a', 'b'];
    let cells = palette_cells(&img, &[1, 0, 1], &palette);
    assert_eq!(
        cells,
        vec![vec![
            ArtCell::Glyph { ch: 'b', color: rgb(0, 1, 2) },
            ArtCell::Glyph { ch: 'a', color: rgb(1, 1, 2) },
            ArtCell::Glyph { ch: 'b', color: rgb(2, 1, 2) },
        ]]
    );
}

#[test]
fn colour_escape_formula() {
    assert_eq!(ansi_color_escape(rgb(0, 7, 255)), "\x1b[38;2;0;7;255m");
    assert_eq!(ansi_color_escape(rgb(10, 100, 9)), "\x1b[38;2;10;100;9m");
}

#[test]
fn art_colours_are_sent_only_on_change() {
    let red = rgb(255, 0, 0);
    let rows = vec![
        vec![
            ArtCell::Glyph { ch: 'a', color: red },
            ArtCell::Glyph { ch: 'b', color: red },
            ArtCell::Blank,
            ArtCell::Glyph { ch: 'c', color: red },
        ],
        vec![ArtCell::Blank],
    ];
    let art = render_art(&rows, false);
    assert_eq!(art, "\x1b[38;2;255;0;0mab\x1b[0m \x1b[38;2;255;0;0mc\x1b[0m\n \n");
    let always = render_art(&vec![vec![ArtCell::Blank]], true);
    assert_eq!(always, " \x1b[0m\n");
}

#[test]
fn block_cell_shapes() {
    let w = rgb(200, 100, 51);
    let k = rgb(0, 1, 0);
    assert_eq!(block_cell(w, k, false, false), ArtCell::Blank);
    assert_eq!(block_cell(w, k, true, false), ArtCell::Glyph { ch: '▀', color: w });
    assert_eq!(block_cell(w, k, false, true), ArtCell::Glyph { ch: '▄', color: k });
    assert_eq!(block_cell(w, k, true, true), ArtCell::Glyph { ch: '█', color: rgb(100, 50, 25) });
}

#[test]
fn braille_cell_dots_and_colour() {
    let colors = vec![
        rgb(10, 0, 0),
        rgb(20, 0, 0),
        rgb(30, 0, 0),
        rgb(40, 0, 0),
        rgb(50, 0, 0),
        rgb(60, 0, 0),
        rgb(70, 0, 0),
        rgb(81, 3, 255),
    ];
    let order = vec![7, 3, 0, 1, 2, 4, 5, 6];
    assert_eq!(braille_cell(&order, &colors, 0), ArtCell::Blank);
    assert_eq!(
        braille_cell(&order, &colors, 2),
        ArtCell::Glyph { ch: '\u{2890}', color: rgb(60, 1, 127) }
    );
    assert_eq!(
        braille_cell(&order, &colors, 8),
        ArtCell::Glyph { ch: '\u{28FF}', color: rgb(45, 0, 31) }
    );
}

#[test]
fn image_pixels_and_sizes() {
    assert!(RgbPixels::new(2, 2, vec![0; 11]).is_none());
    let img = image(3, 2, |x, y| [x as u8, y as u8, 9]);
    assert_eq!(img.pixel(2, 1), rgb(2, 1, 9));
    let same = img.resized(3, 2);
    assert_eq!(same.data(), img.data());
    let bigger = img.resized(6, 4);
    assert_eq!((bigger.width(), bigger.height(), bigger.data().len()), (6, 4, 72));
}

#[test]
fn gpu_alignment_and_dispatch() {
    assert_eq!(align_to(1280, 256), 1280);
    assert_eq!(align_to(1281, 256), 1536);
    assert_eq!(align_to(0, 256), 0);
    assert_eq!(workgroup_count(320), 40);
    assert_eq!(workgroup_count(180), 23);
    assert_eq!(workgroup_count(0), 0);
    assert_eq!(workgroup_count(u32::MAX - 7), u32::MAX / 8);
    let top = usize::MAX - 255;
    assert_eq!(align_to(top, 256), top);
    let layout = ReadbackLayout::new(320, 180);
    assert_eq!(layout.padded_bytes_per_row, 1280);
    assert_eq!(layout.staging_size(), 1280 * 180);
    assert_eq!(ReadbackLayout::new(3, 1).padded_bytes_per_row, 256);
}

#[test]
fn readback_drops_alpha_and_padding() {
    let layout = ReadbackLayout { width: 2, height: 2, padded_bytes_per_row: 12 };
    let data: Vec<u8> = (0..24).collect();
    let rgb = padded_rgba_to_rgb(&data, &layout);
    assert_eq!(rgb, vec![0, 1, 2, 4, 5, 6, 12, 13, 14, 16, 17, 18]);
}

#[test]
fn atlas_layout() {
    let pixels = atlas_pixels();
    assert_eq!(pixels.len(), (ATLAS_WIDTH * ATLAS_HEIGHT) as usize);
    assert_eq!(glyph_origin(' '), (0, 0));
    assert_eq!(glyph_origin('0'), (0, 8));
    assert_eq!(glyph_origin('A'), (8, 16));
    assert_eq!(glyph_origin('~'), (112, 40));
    assert_eq!(glyph_origin('é'), glyph_origin('?'));
    assert_eq!(glyph_origin('\n'), (120, 8));
    assert!(pixels[..8].iter().all(|&p| p == 0));
    let bitmap = font8x8::legacy::BASIC_LEGACY['A' as usize];
    let (ox, oy) = glyph_origin('A');
    for row in 0..8u32 {
        for col in 0..8u32 {
            let on = bitmap[row as usize] & (1 << (7 - col)) != 0;
            let value = pixels[((oy + row) * ATLAS_WIDTH + ox + col) as usize];
            assert_eq!(value, if on { 0xFF } else { 0 });
        }
    }
    assert!(pixels.iter().any(|&p| p == 0xFF));
}

#[test]
fn cell_characters_and_colours() {
    let mut out = Vec::new();
    write_cell_char(&mut out, 'a');
    write_cell_char(&mut out, '█');
    assert_eq!(out, "a█".as_bytes());
    let fg = rgb(1, 2, 3);
    let bg = rgb(4, 5, 6);
    assert_eq!(cell_colors(fg, bg, true), (bg, fg));
    assert_eq!(cell_colors(fg, bg, false), (fg, bg));
    let mut cur_fg = None;
    let mut cur_bg = Some(bg);
    let change = apply_cell_colors(&mut cur_fg, &mut cur_bg, fg, bg);
    assert_eq!(change.set_fg, Some(fg));
    assert_eq!(change.set_bg, None);
    assert_eq!((cur_fg, cur_bg), (Some(fg), Some(bg)));
    let again = apply_cell_colors(&mut cur_fg, &mut cur_bg, fg, bg);
    assert_eq!((again.set_fg, again.set_bg), (None, None));
}
