//! The pins that carry the bus.
use core::marker::PhantomData;
use vstd::prelude::*;
use crate::driver::state::{Configured, Uninitialized};

verus! {

/// The hardware container for PIO USB: which pins carry D+ and D-, once they are known.
///
/// The type parameter `S` tells whether the hardware has been configured.
pub struct PioUsbHardware<S> {
    pub dp_pin: u8,
    pub dm_pin: u8,
    pub _state: PhantomData<S>,
}

impl PioUsbHardware<Uninitialized> {
    /// Claims the hardware, which is not ready to use yet.
    pub fn new() -> (hardware: Self)
        ensures
            hardware.dp_pin == 0,
            hardware.dm_pin == 0,
    {
        PioUsbHardware { dp_pin: 0, dm_pin: 0, _state: PhantomData }
    }

    /// Consumes the uninitialized hardware, whose D+ and D- pins have been set up, and
    /// returns the configured hardware.
    pub fn configure(self, dp_pin: u8, dm_pin: u8) -> (hardware: PioUsbHardware<Configured>)
        ensures
            hardware.dp_pin == dp_pin,
            hardware.dm_pin == dm_pin,
    {
        PioUsbHardware { dp_pin, dm_pin, _state: PhantomData }
    }
}

/// The input register's bits for the two data lines.
pub open spec fn line_mask(dp_pin: u8, dm_pin: u8) -> u32 {
    (1u32 << dp_pin) | (1u32 << dm_pin)
}

/// Whether all lines of `mask` read low.
pub open spec fn lines_low(pins: u32, mask: u32) -> bool {
    pins & mask == 0
}

impl PioUsbHardware<Configured> {
    /// The input register's bits for the two data lines.
    pub fn dp_dm_mask(&self) -> (mask: u32)
        requires
            self.dp_pin < 32,
            self.dm_pin < 32,
        ensures
            mask == line_mask(self.dp_pin, self.dm_pin),
    {
        (1u32 << self.dp_pin) | (1u32 << self.dm_pin)
    }
}

/// The lines count as low exactly when both the D+ and the D- pin read low.
pub proof fn law_lines_low(pins: u32, dp_pin: u8, dm_pin: u8)
    requires
        dp_pin < 32,
        dm_pin < 32,
    ensures
        lines_low(pins, line_mask(dp_pin, dm_pin)) <==> (pins >> dp_pin) & 1u32 == 0 && (pins
            >> dm_pin) & 1u32 == 0,
{
    assert((pins & ((1u32 << dp_pin) | (1u32 << dm_pin)) == 0) == ((pins >> dp_pin) & 1u32 == 0
        && (pins >> dm_pin) & 1u32 == 0)) by (bit_vector)
        requires
            dp_pin < 32,
            dm_pin < 32,
    ;
}

} // verus!
