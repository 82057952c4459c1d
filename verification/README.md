# pyonji

The logic of a tabbed, split-pane terminal emulator, written in Verus and
proved against its contracts, with a thin window program around it.

## Layout

- `src/` — the verified library.
  - `geometry.rs`, `pane.rs`, `tab.rs`: pane areas, the tree of split panes,
    tabs with a focused pane; the laws that a layout tiles its area and that
    every drawn divider can be dragged.
  - `workspace.rs`: the nine tab slots of a window, detached sessions, the
    status bar rows, hit tests and the sizes of new sessions.
  - `mode.rs`: the action key (Ctrl+B) and the modes it enters.
  - `keys.rs`, `input.rs`: key-binding parsing and the bytes a key sends.
  - `prompt.rs`, `statusbar.rs`: the status prompt and the status bar.
  - `palette.rs`, `overlay.rs`: the command palette (fuzzy matching through
    `nucleo-matcher`), the overlay screens and their drawing commands.
  - `session.rs`, `color.rs`, `text.rs`, `ui.rs`: mouse reporting, cursor
    styles (control sequences found by `cansi`), window titles, session
    identifiers, colours and small text helpers.
- `tests/` — tests of the library on concrete values.
- `app/` — the window program: winit events, pseudo-terminals
  (`portable-pty`) and terminal state (`vt100`), calling the library for
  every decision.

