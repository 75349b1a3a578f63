# quote_stream

A stock-quote streaming service. A client subscribes to tickers over TCP with
a line `STREAM udp://127.0.0.1:<port> <T1>,<T2>,...`; the server answers `OK`
or `ERR <detail>` and then streams JSON quotes over UDP for as long as the
client keeps sending `PING` datagrams.

- `src/` is the library, verified with Verus:
  - `text`: white space, trimming, list splitting, ticker files;
  - `command`: the subscription command, its parser and its builder, with the
    proof that what a client builds the server reads back;
  - `reply`: the server's replies and how a client reads them;
  - `session`: the server's per-client streaming session (PING timeout,
    which quotes to forward, when to stop);
  - `receiver`: the client's receive loop as a state machine;
  - `market`: the quote volume rule;
  - `clock`: the wall clock in milliseconds.
- `app/` is the program (`quote_stream server` or `quote_stream client`):
  sockets, threads, channels, the float price walk and JSON.
- `tests/` runs the library on concrete values.
