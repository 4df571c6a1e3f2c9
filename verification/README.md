# zellij_keymap

A keybinding panel for the Zellij terminal workspace: it reads the keymap the
host reports, lists each mode's bindings in sections (the current mode's
first), groups them by category, and lets the user browse, fold and search
them. The panel's logic is a library verified with Verus; a thin plugin shell
connects it to the host.

## Layout

- `src/model.rs` — the values the panel works on: modes, keys, actions,
  colours, categories.
- `src/text.rs` — text helpers specified over a string's characters.
- `src/labels.rs` — labels for modes, actions and keys, and their colours.
- `src/keymap.rs` — from the host's keymap to sections: labelling, merging
  keys by action, and the stable sort by category and direction.
- `src/layout.rs` — how the sections are laid out as lines.
- `src/panel.rs` — the panel's state and what each event does to it, with the
  requests to the host it calls for.
- `src/screen.rs` — what the panel prints: the help view or the list.
- `src/host.rs` — the pane coordinates made by the host's library, with a
  plain model of the row and height they hold.
- `src/laws.rs` — properties proved of the above for every input.
- `app/main.rs` — the plugin entry points: converts the host's events and
  types, performs the requested host calls, prints the rendered text.
- `tests/` — tests of the library on concrete inputs.

Build the plugin for the `wasm32-wasip1` target and load it from the Zellij
configuration; the `modifier_style` setting takes `macos` or `linux`.
