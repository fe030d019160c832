# ClipSync

ClipSync shares the clipboard of the machines on one local network: what is
copied on one can be pasted on another. Machines find each other over mDNS, are
paired by a six-digit code, and exchange text and images over encrypted
WebSocket connections.

- `src/` is the library: every decision that ClipSync takes, written and proved
  in Verus.
  - `pairing`, `crypto`, `codec`: the pairing code, the key derived from it,
    encryption, and messages on the wire.
  - `clipboard`: formats, hashes, sizes, the watcher, and what to write.
  - `guard`, `sync`: the loop guard and the sync engine.
  - `transport`: who dials whom, the handshake, the table of connections, waits.
  - `discovery`: what is advertised and who is a peer.
  - `config`, `tray`, `notice`: settings, and what is shown.
  - `text`, `registry`, `clock`, `random`: what the others rest on.
- `app/` is the program around it: the tray and the window (Tauri), sockets, the
  system clipboard, mDNS and the settings file.
- `tests/` runs the library on concrete values.

The functions marked `external_body` and the `assume_specification` items call
other crates and the standard library. Their doc comments say what is claimed of
them; everything else follows by proof.

What holds of the library as a whole is stated in proof functions whose names
start with `law_`.
