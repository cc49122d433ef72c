# minesweeper

Two-player Minesweeper ("MinesBooMer"): players take turns uncovering cells
of a shared board; finding a mine scores and keeps the turn, anything else
passes it, and the first to find half the mines wins.

- `src/` is the library, verified with Verus: the grid and its storage
  order, cells and boards (random mine placement, neighbour counts), the
  single-player rules (flood-fill selection, win and loss), the two-player
  rules, the message and session types, the server lobby that decides what
  to answer each request, and the client state that decides what to do with
  each message and tap. `src/laws.rs` states and proves properties that span
  several operations.
- `tests/` runs the library on concrete values.
- `app/` is the program around it: the WebSocket server (axum, tokio), the
  egui window, and the JSON form of the messages (serde). Run it with no
  argument for the server, or with `client` for the window.
