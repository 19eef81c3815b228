# punch

Punch connects two devices directly: a short code pairs them through a
signalling server, both sides punch a hole through their NATs, and when that
fails they fall back to a relay whose traffic is end-to-end encrypted. On top
of the link it sends files, forwards ports, shares a shell and pipes streams.

`src/` is the library, verified with Verus: the policy of connection codes,
the STUN wire format, the connection state machine and its relay fallback,
the relay's encryption, file-transfer planning and resumption, the safety
rules of file transfers and remote shells, port-forward handshakes, and the
text and byte formats they share. Calls into `sha2`, `chacha20poly1305`,
`x25519-dalek` and `rand` go through small trusted wrappers whose contracts
state what those crates document.

`app/` is the `punch` program around it: the command line, the WebSocket,
sockets, files under `~/.punch`, the terminal, the dashboard and the QUIC
transport.

`tests/` exercises the library on concrete values.
