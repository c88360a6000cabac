# rust_in_action

Small systems programs (a line searcher, a Mandelbrot renderer, a simulated file,
satellites with a mailbox, an HTTP fetcher with its own DNS lookup, and an NTP
clock), with the computing core of each verified by Verus.

- `src/` is the verified library: `lines` and `grep` (line splitting, substring
  and regex search, search with context), `mandelbrot` (the picture grid),
  `file_reader`, `cubesat`, `ethernet` (MAC addresses), `dns` (queries and
  replies), `http` (request text and the client's event-loop decisions) and
  `clock` (NTP messages, offset and delay, reading and writing date-time text).
- `app/` is the command-line front end: argument parsing, files, sockets, the
  TAP device, the system clock, and the floating-point parts.
- `tests/` runs the library on concrete values.
