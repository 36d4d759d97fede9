# zcode_store

The completion, LSP-position, inlay-hint and semantic-highlight logic of an editor
kernel's store, written in Verus with its behaviour stated in contracts and proved.

Layout:

- `src/text.rs`, `src/rope.rs`, `src/sorted.rs`: char and UTF-8/UTF-16 measures, the
  rope line model (`ropey`, through specified wrappers), and a stable sort spec.
- `src/editor.rs`, `src/kernel.rs`, `src/ports.rs`: the editor tab, the application
  and UI state the reducers change, commands, action kinds and LSP payload types.
- `src/flat_store/`: completion filtering and popup rules, snippet expansion, LSP
  position conversion and semantic-token highlighting of the single-module store.
- `src/store/`: the store split by concern: `intel/` (completion ranking with
  `rustc_hash` maps, completion sorting, syncing and insertion, per-language
  completion strategies, semantic highlighting with a legend lookup, inlay hints),
  context menus (with the context-menu reducer, tab-menu actions and the guard
  that asks before closing unsaved tabs), the confirm dialog and input dialog
  reducers, the commands that move the focus, show panels, split the editor and
  drive the command palette, the application commands, a `dispatch` that routes
  each action to its reducer, search results (with the navigation of an opened
  result), the overlay, the tick, and small queries.
- `tests/`: scenario tests run against the compiled library.
- `app/`: serde support for the completion ranker's saved form.
