# wlclient

A small Wayland client that shows a PNG image centered in a window, with its protocol
logic verified by Verus.

- `src/bytes.rs`: machine-order integer encodings and the four-byte padding rule.
- `src/wayland/`: the wire format (`codec.rs`), splitting received bytes into messages
  (`reader.rs`), the request queue and receive buffer of a connection (`comm.rs`), and one
  module per protocol interface with its requests, events and opcodes.
- `src/image.rs`: decoding the PNG (through the `png` crate) and premultiplying its pixels.
- `src/utils.rs`: the layout of the shared-memory double buffer.
- `src/client.rs`: the double buffer and the client's state machine. `handle_events` and
  `update_state` are specified against a mathematical model of the client (`ClientView`),
  and `update_state` answers with a `Step` that tells the program what to do outside.
- `app/`: the program: the Unix socket, the `memfd`/`mmap` shared memory and the main loop
  that carries out each `Step`.
- `tests/`: tests of the library on concrete values.
