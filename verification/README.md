# qubes_tui

A terminal manager for Qubes OS qubes: a table of the qubes in four views
(qubes, service qubes, templates, Whonix; the tab bar also lists
disposables and all qubes, which no view shows yet), with start, shutdown, kill, pause,
delete, a terminal, a netvm picker and a property editor. It talks to qubesd
over its admin socket, or runs the Qubes command-line tools where there is no
socket.

The library under `src/` is written in Verus. Its functions are verified
against their contracts, except for a few trusted items whose contracts are
taken on trust: the wrappers of `String::from_utf8_lossy`,
`std::str::from_utf8`, the `Display` texts of `io::Error` and `Utf8Error`,
`Instant::now`, `str::to_lowercase` and ratatui's `Layout::split`, and the
specifications of `String::push` and `String::pop`. The parts:

- `admin/` — the qubesd wire format (request framing, reply decoding), the
  parsers of the qube list, property list, current-state and stats replies and
  of the `qvm-ls`, `qvm-prefs` and `xl list` output, and the client, which says
  which socket request or command each operation is and what its output means.
- `app.rs` — the application state and `App::update`, the step from one
  action to the next state and the side effects to carry out; `App::step`
  states it, and `App::inv` is what every step keeps.
- `event.rs` — the key map; `detail.rs` — the rows of the detail popup;
  `view.rs` and `layout.rs` — colours, titles, messages and placement;
  `outcome.rs` — what finished background work reports back.
- `text.rs` and `textmap.rs` — text helpers and a map with text keys.

`app/` is the program around it: the terminal, drawing with ratatui, the
socket and process I/O, and the background threads.
