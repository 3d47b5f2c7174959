# tui_gpu

The verified core of a terminal renderer that shows a shell or raw RGB
animations (procedural demos, Doom, video) as ANSI art in the terminal, and of
its layout compiler and runtime tools. The decisions of the GPU window and of
GPU compute (runner choice, focus, read-back layout, glyph atlas) are part of
the library; the window and GPU drawing themselves are not built here, and the
command line answers those modes with an error.

`src/` is the library, verified with Verus:

- `feed`, `bytes`: the shared-memory frame, input and audio feeds (magic
  bytes, header layout, generation counter, torn-read detection), stated as
  writes into a byte region and proved to round-trip.
- `keys`, `term_keys`, `input`, `mouse`: Doom scancodes, the escape sequences
  of terminal keys, keyboard routing between the shell and the input feed, and
  mouse turning.
- `template`, `layout`, `text`: the layout template parser (front matter,
  component tags, attributes) and the character utilities it rests on.
- `ansi`, `screen`, `atlas`, `gpu`: ANSI art cells (palette, block and braille
  grids) and escape sequences, terminal cell colours, the glyph atlas bitmap,
  and GPU read-back packing.
- `runtime`: event ids, log file names and the content-addressed store's
  naming by SHA-256.
- `config`, `youtube`, `fps`: demo and compute selection, the YouTube demo's
  settings, frame-rate counting.

`app/` holds what the library does not: memory mappings, files, processes,
the terminal loops, floating-point image and demo code, and the command line.
