# tsc

The core of the Standalone Complex node, written in Verus: every function in
`src/` carries a contract that Verus proves.

- `src/` — the verified library: BIP-39 / SLIP-0010 key derivation
  (`bip39`), KERI inception and rotation events and event-log verification
  (`keri`, `persona`), the encrypted mnemonic vault (`vault`), the Ghost
  Service Protocol frames and HELLO handshake (`gsp`, `wire`), DHT
  coordinate records (`dht`), the daemon's IPC protocol and decisions
  (`proto`, `daemon`, `net`), the command-line parser and its output
  (`cli`, `display`), and the runtime types (`runtime`). Calls into the
  cryptographic crates go through small trusted wrappers in `primitives`,
  `encoding` and `text`, each documented with what its contract assumes.
- `app/` — the programs around the library: the daemon's socket and QUIC
  loops, file I/O, the libp2p swarm, and the serde copies of the wire types.
- `tests/` — tests of the library on concrete values.

Verify with Verus on `src/lib.rs`; build and test with Cargo.
