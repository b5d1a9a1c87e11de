# hello_espcx

A BLE product, end to end: an ESP32-C6 peripheral that advertises a compact
identity and serves battery, echo, status and bulk-transfer characteristics,
and a desktop central that finds it, ranks candidates and checks what it
reads. This crate is the verified core of both sides.

## Layout

- `src/` — the library, verified with Verus.
  - `protocol` — the shared contract: UUIDs, capacities, the identity payload,
    the bulk control commands and statistics, the bulk test pattern.
  - `wire` — the postcard encodings of status, control and statistics values.
  - `advertising` — the peripheral's advertisement bytes.
  - `peripheral` — transfer statistics, GATT request handling and the
    periodic task's decisions.
  - `stream` — cutting a bulk stream into chunks and checking received chunks.
  - `properties`, `filter`, `discovery`, `selection` — scan results, the scan
    filter, de-duplication during a scan, and ranking by preferences.
  - `central` — the product scan filter and selector, decoding of candidates,
    session checks and the monitoring loop's decisions.
  - `gatt`, `uuid`, `display`, `render`, `text` — characteristic lookup,
    UUID and number rendering, one-line summaries, byte-level text order.
  - `winble` — the single-session layer's scan filter.
- `tests/` — tests that run the library.
- `app/` — the peripheral's loop on the `trouble-host` stack, serde and
  thiserror forms of the library's types, and `Display` for peripherals.

The desktop central's BLE I/O (scanning, connecting, GATT reads, writes and
notifications) needs a platform BLE stack that this crate does not carry;
the central's decisions are in `src/central.rs`, `src/discovery.rs`,
`src/selection.rs` and `src/stream.rs`, ready for such a loop.
