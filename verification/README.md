# a_fast_clipboard

A clipboard history for Windows: texts and images, kept in an SQLite database,
shown in a small picker that a hotkey opens.

The library under `src/` is written in Verus. It holds the rules of the program
and proves them: which clips are kept, which of them a search shows and in which
order, how hotkeys are read and recorded, what the picker does when it is used,
and how an update is chosen, checked and installed. It does no input or output.

The program under `app/` is ordinary Rust. It reads and writes the database,
talks to the clipboard, the window system and the network, draws the window, and
asks the library what to do.

## Layout

| Part | What it is about |
| --- | --- |
| `src/store.rs`, `src/clip.rs`, `src/history.rs`, `src/search.rs`, `src/settings.rs`, `src/schema.rs` | the history and its settings |
| `src/laws.rs` | what holds of the history over several operations |
| `src/image.rs`, `src/digest.rs`, `src/icon.rs` | thumbnails, packed pixels, content hashes, icons |
| `src/hotkey.rs`, `src/recorder.rs`, `src/hotkey_laws.rs` | hotkeys |
| `src/picker.rs`, `src/ui.rs`, `src/session.rs` | what is shown, and what is decided while the program runs |
| `src/native.rs` | the listener, windows, and the startup entry |
| `src/updater.rs` | updates |
| `src/text.rs`, `src/number.rs` | texts and numbers |
| `tests/` | tests of the library |
| `app/` | the program |

## The icon of the executable

`a_fast_clipboard --write-icon app.ico` writes the icon file that goes into the
executable when it is packaged.

## What is trusted

A few calls into other crates are given contracts that are not proved:

- SHA-256 (`digest.rs`);
- LZ4 (`image.rs`): what was packed is unpacked into the same bytes, and what
  unpacking gives depends on the bytes alone where their lengths can be counted;
- semantic versions (`updater.rs`);
- the texts that the user interface sends for special keys (`recorder.rs`);
- `String::push` (`text.rs`).

Each says in its documentation what it claims.
