//! Full-speed USB device on the PIO blocks of an RP2040: the line coding, the link layer
//! that answers the host from the PIO interrupt, and the endpoints behind it.
//!
//! The crate decides; it touches no register. Whoever owns the peripherals performs the
//! actions that the functions here return and hands back what was read.
pub mod driver;
pub mod phy;

pub use driver::hardware::PioUsbHardware;
pub use driver::PioUsbDriver;
