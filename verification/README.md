# volt

A terminal API client: it discovers the routes of the project it runs in,
lets you edit and send requests per route, and shows the responses. Requests
go out either from this machine or through an SSH channel to a small agent on
a remote host.

The library (`src/`) is written in Verus and proved: each public function
states in its contract what it returns or changes, and `src/laws.rs` states
and proves the properties that relate several operations (round trips of the
cycling selectors, editing inverses, the history of base URLs, drafts kept per
route, the listing of scanned routes, and others).

- `src/app.rs`: text buffers with a byte cursor, key/value rows, request
  drafts, byte-count formatting.
- `src/session.rs`, `src/keys.rs`: the interface state and its reaction to
  keys and clicks, as a function from state and event to next state and
  effect.
- `src/scanner/`: route discovery in source files for the supported
  frameworks, path handling, and the ordered listing of what a scan found.
- `src/http.rs`, `src/executor.rs`, `src/remote.rs`, `src/agent.rs`: the
  request built from a draft, the retry decisions, error classes, and the
  messages exchanged with the remote agent.
- `src/highlight.rs`, `src/theme.rs`: what the response viewer shows and in
  which colours.
- `src/pattern.rs`, `src/text.rs`, `src/utf8len.rs`, `src/keyed.rs`: regular
  expressions (through the `regex` crate), text helpers, UTF-8 lengths and
  text-keyed maps.

`app/` is the program around the library: command line, files, the terminal
event loop and drawing, and the network and SSH work that the library's
effects ask for. `tests/` runs the library on concrete inputs.
