# chrome_bridge

Drives a Chrome application window from a Rust program: the window loads a
built-in page from a small HTTP file server, the page connects back over a
websocket, and the program and the page exchange JSON messages (the program
scripts the page; the page calls functions the program binds).

`src/` is the verified library (Verus):

- `text` — decimal numerals, joining, prefix tests, byte search-and-replace;
- `message` — the message type, request identifiers, JSON string texts;
- `net` — the connection bookkeeping: waiting requests, routing of incoming
  messages, answers to calls, bind requests, with the protocol laws;
- `http` — request-line parsing, the built-in page, response framing;
- `window` — command-line switches, bound names, navigation and script
  requests, browser discovery;
- `func` — a trait for callable families that programs implement.

`app/` is the program: sockets, threads, channels, processes, the file system
and JSON encoding, all calling the library for every decision. `tests/` runs
the library on concrete values.
