# mosquito-core

The core of Mosquito, a tiny LAN file-sharing app, written in Verus.

`src/` is the verified library:

- `file_store.rs` - the registry of shared files: sequential ids that are
  never reused, insertion order, lookup and removal, with the laws that tie
  these together.
- `server.rs` - what the HTTP server sends: the listing page, the answer to a
  download request, HTML escaping, percent-encoding (with its decoding law),
  the `Content-Disposition` value and human-readable sizes
  (the `f64` arithmetic of the size display is computed exactly on integers).
- `sharer.rs`, `lan.rs` - the server lifecycle as a state machine (stopped or
  running with its handles), the share URL and the fallbacks for the port and
  the LAN address.
- `qr.rs` - the QR code of the share URL, rendered by the `qrcode` crate.
- `error.rs`, `text.rs` - error types and decimal rendering.

`app/` holds the unverified shell around it: filesystem probing, LAN address
detection, the axum routes and handlers, the tokio server task and the
command functions that the desktop frontend calls.
