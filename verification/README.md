# speed_test

A network speed tester: a client window that measures TCP and UDP upload and
download speed against a server, and the server it talks to.

- `src/` is the library, verified with Verus: the words that open each test and
  the server's reading of them (white-space trimming on raw bytes), big-endian
  integers and the UDP datagrams, the count of lost datagrams, byte counting and
  sender pacing, the client's retrying handshake, and the settings form with
  the decision taken on each of its events.
- `app/` holds the programs: the iced window and the test threads of the
  client (run by default), and the server (run with the argument `server`).
  Sockets, threads, timing and the floating-point speed and rate arithmetic
  live there.
- `tests/` exercises the library on concrete values.
