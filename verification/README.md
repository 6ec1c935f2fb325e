# notema_tui

The layout, hit-testing and text-shaping logic of Notema's terminal UI (a
Markdown journaling app), written in Verus and verified: every function in
`src/` carries a contract, and most properties that span functions are proved
as lemmas. Hint routing is proved over the grid's placements (a click inside a
placed hint's span routes to it) and, for hints whose display width is their
character count (printable ASCII), over the drawn text too: each hint's text
sits in its row's string at its placement, and a click on any of its
characters routes to it. Display widths come from `unicode-width` as a named
result, so for other text only the placement form is stated.

- `src/` — the verified library. Each module works on plain values (cell
  rectangles, hint lists, strings, scores):
  - `hints`, `footer`, `dialog_hints` — the justified hint grid of the footer
    and dialogs, and which hint a click lands on;
  - `wrap`, `surface`, `cards`, `toasts`, `notices` — word wrapping and the
    text blocks built on it: metadata rows, entry cards, toasts, and the
    full-screen unlock / device-access / encryption notices;
  - `scroll`, `hit_test`, `layout`, `frames`, `tabs` — scroll offsets,
    scrollbars, panel arrangement, confirm buttons, the insights tab strip;
  - `insights`, `mood`, `menus`, `tables` — insights panel geometry and
    binning, the mood bar, menu column balancing, table dialogs;
  - `markdown`, `reflow`, `md_text`, `md_table`, `md_rows`, `md_emit`,
    `body`, `reader` — the reader: anchors, image labels and mermaid
    clean-up, highlights, list markers and code blocks, wrapping styled text
    with its links, sizing table columns and laying out their rows, emitting
    lines behind their quote and list prefixes, assembling a body around its
    images, and placing it in the panel;
  - `split`, `dialogs`, `stats`, `entry_list` — the constraint-layout split
    and the geometry built on it (dialogs, the main screen, the stats
    preview), and the entry list's rows;
  - `dialog_rows`, `signed_columns`, `hover` — list dialog rows (scroll,
    selection, hover lift, feelings and location texts), the signed column
    chart's geometry, and what the pointer is over;
  - `dates`, `unlock`, `runtime`, `run_loop` — entry date labels, the unlock
    screen's input, and the event loop's decisions taken one at a time (input
    timeout, validation answers, event routing, debounced refreshes and theme
    reloads, whether a frame is drawn); the loop itself, which reads the
    clock and the terminal, is not here.
- `tests/` — tests run against the compiled library.
- `app/` — glue for the terminal side: converting `crossterm` events to the
  library's key presses, drawing the notices, the unlock screen and the toasts
  with `ratatui`, and restoring the terminal on exit. The full-screen browser
  and its event loop are not part of it.

Rectangles are split by `ratatui`'s constraint solver, whose choice among
equally good layouts is not fixed; the library states what holds of every
outcome, and the exact cells where the rules are plain lengths that fit.

Outside crates reached from `src/` go through small trusted wrappers, each
documented with what its contract assumes: `unicode-width` for display widths,
`chrono` for dates and times, `ratatui`'s layout solver for splitting
rectangles, `zeroize` for wiping the passphrase, and a few `std` `char`
classifications.
