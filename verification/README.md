# pio-usb

A full-speed USB device on the PIO blocks of an RP2040, with its logic verified in Verus.

- `src/phy.rs` encodes packets for the line: bit stuffing, NRZI, end of packet, two bits of
  PIO instruction per bit time. `src/phy/laws.rs` proves that a receiver recovers every packet.
- `src/driver/` holds the link layer and the device driver: what the PIO interrupt does with a
  packet (`irq.rs`), the interrupt as a sequence of register accesses (`interrupt.rs`),
  endpoints, control pipe, bus, endpoint allocation and start-up. `src/driver/laws.rs` proves
  what holds across calls, such as that a task reads what the host sent.
- `app/` drives the peripherals through Embassy. It performs the actions that the library
  returns and hands back what it read. The three PIO programs (transmitter, edge detector, NRZI
  decoder) are passed to `PioUsbHardware::configure`.
- `tests/` runs the library on concrete traffic, with the outside crates linked.

The library calls `embassy-usb` for endpoint addresses, `embassy-rp` for DMA control words and
`pio` for instruction words. Each call stands in a small function whose contract is taken from
that crate's source.
