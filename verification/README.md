# noda's browsing logic, verified

A Verus library holding what noda's two browsers decide, each function
proved against its contract:

- `src/web/` — the pages the HTTP server writes (`page`, `render`, `markup`),
  what a request is let through (`guard`), what an address carries back
  (`carried`, `mod`), the long-running errands (`work`), the optimistic lock on
  a save and its three-way merge (`merge`), the open-editor registry (`watch`),
  the replies and the log records (`reply`, `log`), and the static assets.
- `src/tui/` — the terminal browser's field editing (`field`), its command
  table (`command`), what a `:` line comes to (`prompt`), what a key comes to
  while browsing (`press`), the stack of open screens and what every key
  meets first (`stack`), the queue's card and the `y` questions (`queue`), the header's key grid and facts (`frame`), the
  title band and status line (`band`), the listing's columns and the body's
  text (`view`), the picker, cursor and history logic (`app`), and the colours
  (`theme`).
- `src/text.rs`, `query.rs`, `sort.rs`, `note.rs`, `palette.rs` — the text
  handling and small models the rest shares.

`app/` is the ordinary Rust around it: the axum handlers' plumbing, the
logging subscriber, the key and colour conversions, and the threads. `tests/`
runs the library on concrete values.

Calls into outside crates (`git2`, `pulldown-cmark`, `tracing-subscriber`,
`ratatui`, and a few std functions) stand behind small trusted items, each
with a doc comment saying what its contract claims.
