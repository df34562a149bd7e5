//! The two states of the hardware, as types.
use vstd::prelude::*;

verus! {

/// The state machines and DMA are claimed, but PIO programs are not loaded and pins are
/// not configured.
pub struct Uninitialized;

/// The PIO programs are loaded, pin slew rates are set, and the hardware is ready for USB
/// enumeration.
pub struct Configured;

} // verus!
