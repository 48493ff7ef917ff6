# modbus_impl

A Modbus RTU server library with machine-checked contracts. It answers read requests
(function codes 01–04) and write requests (05, 06, 15, 16) against four data
stores, builds normal and exception responses with their CRC16, and splits a
received byte stream into request frames.

## Layout

- `src/crc.rs` — CRC16 (polynomial 0xA001, initial value 0xFFFF) and its
  specification.
- `src/store.rs` — the `RegisterRead`, `RegisterWrite`, `BitRead` and
  `BitWrite` traits and the stores `Coil`, `Ists`, `Ireg`, `Hreg`.
- `src/frame.rs` — response layouts: exception frames, LSB-first bit packing,
  big-endian register bytes, the CRC trailer.
- `src/ctx.rs` — `ModbusCtx::pharse_pdu` (eight-byte requests) and
  `ModbusCtx::pharse_frame` (requests of any length), with the specification
  of what each request answers and changes.
- `src/rtu.rs` — `FrameAssembler`, which collects bytes into frames and
  answers them.
- `src/rng.rs` — the xorshift32 generator behind `Random`.
- `src/laws.rs` — properties of the library as a whole (write-then-read,
  packing round trips, CRC of every answer, exceptions change nothing).
- `app/main.rs` — RP2040 firmware that serves requests over USB CDC.

The traits carry specification functions (`reg_value`, `reg_valid`,
`bit_value`, ...); an implementation written in plain Rust supplies them as ordinary
methods returning what `get` and `is_valid` return.
