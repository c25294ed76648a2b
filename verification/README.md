# libp2p-wasi-sockets

A TCP transport for rust-libp2p over the WASI 0.2 sockets, so that libp2p
applications run as Wasm components.

- `src/` is the library, verified with Verus: which multiaddresses the transport
  accepts, which socket operations a listener, a dial and a name lookup ask the
  host for, what each reply of the host leads to, and which events are reported.
  It performs no input or output.
- `app/` drives the library with the host's sockets and implements
  `libp2p_core::Transport` and the `futures::io` traits.
- `tests/` runs the library.

Under Wasmtime, pass `-S inherit-network` to grant network access. Without it,
dials fail with `Error::AccessDenied` and listeners cannot be bound. Name lookup
must be allowed on its own.
