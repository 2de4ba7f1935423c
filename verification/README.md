# tui_common

Shared helpers for terminal user interfaces, written in Verus with every
function in `src/` carrying a checked contract.

- `text_input` — single-line editable text buffer (cursor kept as a byte
  offset on a `char` boundary), its editing operations and key handling,
  each stated over the text and the cursor column.
- `overlay` — the overlay size table and centred-rect computation (the
  layout solver itself is `ratatui`'s).
- `theme` — icon-style enum, colours, black-or-white contrast picker.
- `splash` — pixel-art frame rendering with a caller palette.
- `font_probe` — reading the font probe's answers and resolving the icons
  setting.
- `util` — loose boolean parsing, temporary-file suffixes for atomic writes.
- `key`, `encoding` — key events as plain values; UTF-8 byte-length facts.

`app/` holds the terminal and file I/O (font probe, atomic write) and the
conversions to and from `ratatui` / `crossterm` types.
