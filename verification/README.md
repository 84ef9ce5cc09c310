# rocqd

A caching daemon for Rocq compilation. It keeps a `vsrocqtop` process for the
file that was checked last, sends the file again when it has changed, and
answers queries about it from the command line.

- `src/` is the library, verified with Verus.
  - `json`, `text` and `path` are the values that everything else is made of.
  - `lsp` holds JSON-RPC messages, their framing, and the client's side of the
    conversation with `vsrocqtop`.
  - `protocol` holds what the command line and the daemon say to each other.
  - `session` follows one file; `daemon` takes requests, and `daemon::laws`
    states what holds of all of them; `client` is the command line's side.
- `app/` is the program: sockets, files and processes.
- `tests/` runs the library.

The library performs no I/O. `Daemon::step` takes what has happened and says
what to do next; the program does it and reports back.
