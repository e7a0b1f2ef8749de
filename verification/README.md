# speed_test

A client for the speedtest.cn service: it finds the client's location, picks
a server, and measures ping, download and upload.

- `src/` is the verified library (Verus): the decimal text it writes and
  reads, the range probe of a download, how a download is cut into parts,
  the state of a ping or upload exchange, the jitter and ping figures, the
  socket address derived with the `url` crate, and the service's records.
- `app/` is the program around it: HTTP and WebSocket I/O with `reqwest`
  and `tokio-tungstenite`, JSON with `serde`, tasks with `tokio`.
- `tests/` runs the library on concrete values.
