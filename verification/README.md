# opennetdeck

A verified library for the CORA protocol of the Elgato Network Dock, and a
server around it that lets USB Stream Decks be reached over TCP.

## Layout

- `src/`: the library, verified with Verus.
  - `cora`, `le`, `constants`, `error`: frame and header encoding and decoding.
  - `stream`: cutting a received byte stream into frames, skipping garbage.
  - `keepalive`, `session`: keepalive probes and acknowledgements, and the
    per-connection timeout.
  - `reports`, `models`: feature reports, child device records, Stream Deck models.
  - `replies`: the replies and acknowledgements sent for a received frame.
  - `dock`: the dock state (slots, reserved slots per serial, connection ids),
    the server mode and its configuration.
  - `primary`, `secondary`: what the primary dock port and the child bridge
    port do with each frame.
  - `dock_hub`, `deck_bridge`, `surface`: the same for a bare-metal board,
    and its Stream Deck surface.
  - `cli`, `discovery`, `usb`: command-line values, the mDNS record, and the
    choices made around a USB device.
- `app/`: the server itself: sockets, timers, USB transfers, mDNS, and the
  sessions of a bare-metal board over `embedded-io-async`.
- `tests/`: tests of the library.

Verify with Verus on `src/lib.rs`; the tests and the server build with the
outside crates listed in `Cargo.toml`.
