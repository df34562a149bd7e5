//! Control words of the two DMA channels.
use vstd::prelude::*;

verus! {

/// Data size code of a DMA channel that moves bytes.
pub const SIZE_BYTE: u8 = 0;

/// `embassy_rp::pac::dma::regs::CtrlTrig::default`: all bits clear.
#[verifier::external_body]
fn default_control() -> (word: u32)
    ensures
        word == 0,
{
    embassy_rp::pac::dma::regs::CtrlTrig::default().0
}

/// `embassy_rp::pac::dma::regs::CtrlTrig::set_data_size`: puts the low two bits of the size
/// code into bits 2 and 3 and keeps the others.
#[verifier::external_body]
fn set_data_size(word: u32, size: u8) -> (changed: u32)
    ensures
        changed == (word & !0x0cu32) | (((size & 0x03u8) as u32) << 2u32),
{
    let mut control = embassy_rp::pac::dma::regs::CtrlTrig(word);
    control.set_data_size(embassy_rp::pac::dma::vals::DataSize::from_bits(size));
    control.0
}

/// `embassy_rp::pac::dma::regs::CtrlTrig::set_treq_sel`: puts the low six bits of the
/// transfer request's number into bits 15 to 20 and keeps the others.
#[verifier::external_body]
fn set_treq_sel(word: u32, request: u8) -> (changed: u32)
    ensures
        changed == (word & !0x1f_8000u32) | (((request & 0x3fu8) as u32) << 15u32),
{
    let mut control = embassy_rp::pac::dma::regs::CtrlTrig(word);
    control.set_treq_sel(embassy_rp::pac::dma::vals::TreqSel::from_bits(request));
    control.0
}

/// `embassy_rp::pac::dma::regs::CtrlTrig::set_incr_read`: sets or clears bit 4 and keeps the
/// others.
#[verifier::external_body]
fn set_incr_read(word: u32, increment: bool) -> (changed: u32)
    ensures
        changed == (word & !0x10u32) | (if increment { 0x10u32 } else { 0u32 }),
{
    let mut control = embassy_rp::pac::dma::regs::CtrlTrig(word);
    control.set_incr_read(increment);
    control.0
}

/// `embassy_rp::pac::dma::regs::CtrlTrig::set_incr_write`: sets or clears bit 5 and keeps
/// the others.
#[verifier::external_body]
fn set_incr_write(word: u32, increment: bool) -> (changed: u32)
    ensures
        changed == (word & !0x20u32) | (if increment { 0x20u32 } else { 0u32 }),
{
    let mut control = embassy_rp::pac::dma::regs::CtrlTrig(word);
    control.set_incr_write(increment);
    control.0
}

/// `embassy_rp::pac::dma::regs::CtrlTrig::set_en`: sets or clears bit 0 and keeps the
/// others.
#[verifier::external_body]
fn set_en(word: u32, enable: bool) -> (changed: u32)
    ensures
        changed == (word & !0x01u32) | (if enable { 0x01u32 } else { 0u32 }),
{
    let mut control = embassy_rp::pac::dma::regs::CtrlTrig(word);
    control.set_en(enable);
    control.0
}

/// The number of the transfer request that the transmit FIFO of state machine `sm` raises.
pub open spec fn tx_request(is_pio0: bool, sm: int) -> int {
    if is_pio0 {
        sm
    } else {
        8 + sm
    }
}

/// The number of the transfer request that the receive FIFO of state machine `sm` raises.
pub open spec fn rx_request(is_pio0: bool, sm: int) -> int {
    4 + tx_request(is_pio0, sm)
}

/// The control word of an enabled channel that moves bytes at the pace of `request`.
pub open spec fn control_word(request: int, incr_read: bool, incr_write: bool) -> int {
    1 + (if incr_read { 0x10int } else { 0 }) + (if incr_write { 0x20int } else { 0 }) + 0x8000 * request
}

/// The control word of an enabled channel that moves bytes at the pace of `request`.
fn channel_control(request: u8, incr_read: bool, incr_write: bool) -> (word: u32)
    requires
        request < 64,
    ensures
        word == control_word(request as int, incr_read, incr_write),
{
    let sized: u32 = set_data_size(default_control(), SIZE_BYTE);
    let paced: u32 = set_treq_sel(sized, request);
    let reading: u32 = set_incr_read(paced, incr_read);
    let writing: u32 = set_incr_write(reading, incr_write);
    let word: u32 = set_en(writing, true);
    proof {
        let r = if incr_read { 0x10u32 } else { 0u32 };
        let w = if incr_write { 0x20u32 } else { 0u32 };
        assert(sized == 0) by {
            assert((0u32 & !0x0cu32) | (((0u8 & 0x03u8) as u32) << 2u32) == 0) by (bit_vector);
        }
        assert(word == 1 + r + w + 0x8000 * request) by (bit_vector)
            requires
                request < 64,
                paced == (0u32 & !0x1f_8000u32) | (((request & 0x3fu8) as u32) << 15u32),
                reading == (paced & !0x10u32) | r,
                writing == (reading & !0x20u32) | w,
                word == (writing & !0x01u32) | 0x01u32,
                r == 0 || r == 0x10,
                w == 0 || w == 0x20,
        ;
    }
    word
}

/// The control word of the channel that feeds the transmit FIFO of state machine `sm`.
pub fn tx_control(is_pio0: bool, sm: usize) -> (word: u32)
    requires
        sm < 4,
    ensures
        word == control_word(tx_request(is_pio0, sm as int), true, false),
{
    let base: u8 = if is_pio0 { 0 } else { 8 };
    channel_control(base + sm as u8, true, false)
}

/// The control word of the channel that drains the receive FIFO of state machine `sm`.
pub fn rx_control(is_pio0: bool, sm: usize) -> (word: u32)
    requires
        sm < 4,
    ensures
        word == control_word(rx_request(is_pio0, sm as int), false, true),
{
    let base: u8 = if is_pio0 { 4 } else { 12 };
    channel_control(base + sm as u8, false, true)
}

} // verus!
