# ray

Ray is a media toolkit built around a macroquad window that hosts
extensions: region screenshots and recordings, microphone capture, a live
shader editor, payload nodes (cropper, trimmer) and a Japanese dictionary
with an offline Anki queue.

This crate keeps the decisions of all of that in a library whose
functions carry Verus contracts, and keeps the window, the processes, the
files and the floating-point work in a thin program around it.

## Layout

- `src/` — the verified library.
  - `engine.rs`, `registry.rs`, `hotkeys.rs`, `console.rs`: the framework —
    extension table, hotkey registry with conflict detection and scope rules,
    the operating-system hotkey plan, the debug console.
  - `capture.rs`, `imaging.rs`, `audio.rs`, `shaders.rs`, `nodes.rs`: the
    extensions' state machines, ffmpeg argument lists and settings rows.
  - `dictionary.rs`, `anki.rs`, `threed.rs`, `router.rs`, `progress.rs`:
    the stand-alone dictionary program's logic.
  - `text.rs`, `numbers.rs`, `sorting.rs`, `paths.rs`: text, number
    formatting and parsing, stable sorting.
- `tests/` — tests of the library on concrete values.
- `app/` — the runner (`main.rs`): event bus, extension runtimes, windows,
  processes, SQLite, clipboard and global hotkeys.
