# aynime_issen

The logic of a Windows screen-capture tool for anime screenshots and short
clips, as a Verus library, and the program around it.

- `src/` — the verified library:
  - `region.rs`: capture regions, clamping to the screen, cropping a BGRA
    frame to RGBA, packing a mapped texture's rows into a frame.
  - `selection.rs`: the drag-to-select overlay as a state machine over window
    messages, the layout it paints, and pixel conversion of the selection.
  - `clipboard.rs`: the 24-bit bottom-up DIB put on the clipboard.
  - `anime_title.rs` and `text.rs`: extracting an anime title from a browser
    window title; safe file names; the character-sequence operations beneath.
  - `export.rs`: frame checks, the raw frame stream, FFmpeg command lines,
    the MP4 quality ladder, and the RGBA image buffer for still images.
  - `session.rs`, `config.rs`, `hotkey.rs`, `overlay.rs`, `tools.rs`: the
    session's decisions and messages, configuration defaults, hotkey ids,
    border and cursor geometry, and choosing a downloaded tool's file.
- `app/` — the Windows program: Win32 windows and GDI drawing, DXGI capture,
  the clipboard, FFmpeg processes, downloads, files, and the egui window.
- `tests/` — tests of the library on concrete values.
