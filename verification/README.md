# terminal_emulator

The core of a terminal emulator, verified with Verus: a byte-oriented
ANSI/VT parser that drives a styled screen grid with dirty tracking, the
incremental redraw computed from that grid, key encoding, a fixed-capacity
ring buffer, and the configuration defaults.

Layout:

- `src/` — the verified library.
  - `ansi/parser.rs` — the parser state machine; `ParserView::fed` is its
    model, and `Parser::feed` / `Parser::try_feed` are proved against it.
  - `terminal/screen_buffer.rs` — the grid (`GridView` model), scrollback,
    erase, scroll, resize and dirty tracking.
  - `terminal/renderer.rs` — the drawing commands for one frame.
  - `session.rs` — one round of the main loop (feed, frame, mark clean).
  - `input/` — key events and their byte encodings, with and without
    application cursor key mode.
  - `buffer.rs` — the ring buffer.
  - `grid.rs` — a plain grid without wide characters or scrollback.
  - `pty/` — the window size and the decisions the PTY layer makes (which
    shell to run, which descriptors a child closes, how a write loop
    proceeds).
  - `unicode.rs` — the trusted bindings to `unicode-width`,
    `unicode-segmentation` and std's UTF-8 validation.
- `app/` — the program: PTY and terminal I/O, the event loop, the TOML file.
- `tests/` — tests of the library.
