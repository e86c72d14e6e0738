# Terminal server

A server that watches the recordings of terminals and reports the commands that run in them. A
terminal sends its recording, line by line, over a Unix socket. The shell's escape sequences in it
tell when a command starts and ends and with which exit code; regular expressions, which are sent
over HTTP, tell the steps in its output. Each of these is posted as an event.

- `src/` is the library, verified with Verus: reading the lines and the escape sequences, the
  state of each process, the events, the filters, and the table of the terminals. `src/calendar.rs`
  says what a date is; what holds over whole recordings is proved in `src/laws.rs`.
- `app/` is the server around it: sockets, HTTP, the clocks, and JSON for headers and events.
- `tests/` holds the tests of the library.

What the library takes from other crates stands behind functions whose contracts are believed and
not proved; their doc comments begin with "Trusted". These are the searches of `regex`
(`src/pattern.rs`), the JSON arrays of `serde_json` (`src/recording.rs`), the dates of `chrono`
(`src/event.rs`), and some functions of the standard library on strings (`src/text.rs`,
`src/number.rs`).
