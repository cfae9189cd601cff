# hue

A small modal (vi-like) text editor drawn with wgpu. It opens in a directory
listing; `hjkl` move, Enter opens a file or a directory, `n` creates a file.
In a file, command mode offers counts, `dd`, `yy`/`Y`, `p`/`P`, `x`/`X`, `D`,
`d$`, `d^`, `gg`, `G`, `H`/`M`/`L`, `o`/`O`, `a`/`A`/`i`/`I`, `u` (undo by
blocks) and `:` commands (`w`, `wq`, `q`, `qa`, `,d` back to the listing).

## Layout

- `src/` is the verified library (Verus):
  - `text.rs`: UTF-8 facts, character/byte positions, `str::lines`-style
    splitting, white space;
  - `textarea.rs`: the buffer (lines and cursor) and its editing operations;
  - `undo.rs`: edit commands, their merging, and the block-wise undo history;
  - `format.rs`: decimal numbers, padding, reading a typed count;
  - `directory.rs`: ordering directory entries by name and the listing rows;
  - `editor.rs`: what each key does in each mode, and what it asks of the
    program (files to open, create or write, a redraw).
- `app/` is the program around it: the window, the GPU drawing and text
  measuring, and the file system.
- `tests/` runs the library on concrete inputs.

The font is read at start-up from `HUE_FONT`, or from
`fonts/SarasaMonoSC-Regular.ttf`.
