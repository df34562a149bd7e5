//! What a device starts with, and what of it lasts.
use vstd::prelude::*;
use crate::driver::address::{Direction, EndpointAddress};
use crate::driver::bus::PioUsbBus;
use crate::driver::control::PioControlPipe;
use crate::driver::dma;
use crate::driver::endpoint::{EndpointState, EndpointStatus, PioEndpointIn, PioEndpointOut, Poll};
use crate::driver::hardware;
use crate::driver::hardware::PioUsbHardware;
use crate::driver::instruction;
use crate::driver::interrupt::{IrqAction, PioUsbIrqHandler};
use crate::driver::irq;
use crate::driver::irq::{Event, Response, TxSource, UsbIrqState, WakeTarget};
use crate::driver::laws;
use crate::driver::laws::packets;
use crate::driver::laws::transfers;
use crate::driver::state::{Configured, Uninitialized};
use crate::driver::{PioUsbDriver, StartPlan};
use crate::phy;

verus! {

/// An endpoint's address has its number in the low seven bits, and the highest bit tells
/// whether it sends to the host; an address that is put together falls into the same parts.
pub proof fn law_address(
    number: usize,
    direction: Direction,
    address: EndpointAddress,
    index: usize,
    is_in: bool,
)
    requires
        number < 128,
        call_ensures(EndpointAddress::from_parts, (number, direction), address),
        call_ensures(EndpointAddress::index, (&address,), index),
        call_ensures(EndpointAddress::is_in, (&address,), is_in),
    ensures
        address.raw == number + (if direction == Direction::In {
            128int
        } else {
            0
        }),
        index == number,
        is_in == (direction == Direction::In),
{
}

/// Any address byte falls into a number below 128 and a direction.
pub proof fn law_address_parts(address: EndpointAddress, index: usize, is_in: bool)
    requires
        call_ensures(EndpointAddress::index, (&address,), index),
        call_ensures(EndpointAddress::is_in, (&address,), is_in),
    ensures
        index < 128,
        address.raw == index + (if is_in {
            128int
        } else {
            0
        }),
{
}

/// Configured hardware knows the pins that it was given.
pub proof fn law_configure(
    hardware: PioUsbHardware<Uninitialized>,
    dp_pin: u8,
    dm_pin: u8,
    configured: PioUsbHardware<Configured>,
)
    requires
        call_ensures(
            PioUsbHardware::<Uninitialized>::configure,
            (hardware, dp_pin, dm_pin),
            configured,
        ),
    ensures
        configured.dp_pin == dp_pin,
        configured.dm_pin == dm_pin,
{
}

/// `mask` picks the two data lines out of the input register, and no other pin.
pub open spec fn picks_lines(mask: u32, dp_pin: u8, dm_pin: u8) -> bool {
    forall|pins: u32|
        (#[trigger] (pins & mask) == 0) <==> (pins >> dp_pin) & 1u32 == 0 && (pins >> dm_pin) & 1u32
            == 0
}

/// The mask of configured hardware picks its two data lines.
pub proof fn law_line_mask(hardware: PioUsbHardware<Configured>, mask: u32)
    requires
        hardware.dp_pin < 32,
        hardware.dm_pin < 32,
        call_ensures(PioUsbHardware::<Configured>::dp_dm_mask, (&hardware,), mask),
    ensures
        picks_lines(mask, hardware.dp_pin, hardware.dm_pin),
{
    lemma_picks_lines(mask, hardware.dp_pin, hardware.dm_pin);
}

/// `word` is the control word of an enabled DMA channel that moves bytes at the pace of a
/// transfer request and counts one of its addresses up; every other setting is off.
pub open spec fn controls(word: u32, request: int, incr_read: bool, incr_write: bool) -> bool {
    &&& word % 2 == 1
    &&& word / 2 % 2 == 0
    &&& word / 4 % 4 == 0
    &&& (word / 16 % 2 == 1) == incr_read
    &&& (word / 32 % 2 == 1) == incr_write
    &&& word / 64 % 512 == 0
    &&& word / 0x8000 % 64 == request
    &&& word / 0x20_0000 == 0
}

/// A control word falls into the settings that it was made from.
proof fn lemma_controls(word: u32, request: int, incr_read: bool, incr_write: bool)
    requires
        0 <= request < 64,
        word == dma::control_word(request, incr_read, incr_write),
    ensures
        controls(word, request, incr_read, incr_write),
{
}

/// The mask of two pins picks their lines.
proof fn lemma_picks_lines(mask: u32, dp_pin: u8, dm_pin: u8)
    requires
        dp_pin < 32,
        dm_pin < 32,
        mask == hardware::line_mask(dp_pin, dm_pin),
    ensures
        picks_lines(mask, dp_pin, dm_pin),
{
    assert forall|pins: u32|
        (#[trigger] (pins & mask) == 0) <==> (pins >> dp_pin) & 1u32 == 0 && (pins >> dm_pin) & 1u32
            == 0 by {
        hardware::law_lines_low(pins, dp_pin, dm_pin);
    }
}

/// Before any traffic the handshakes are kept and every endpoint is fresh.
proof fn lemma_initial(state: UsbIrqState)
    requires
        state@ == irq::LinkModel::initial(
            state.tx_dma_ctrl_word,
            state.rx_dma_ctrl_word,
            state.dp_dm_mask,
        ),
    ensures
        keeps_handshakes(state),
        forall|i: int| 0 <= i < 16 ==> fresh(#[trigger] state.ep_in_states@[i]),
        forall|i: int| 0 <= i < 16 ==> fresh(#[trigger] state.ep_out_states@[i]),
{
    laws::law_handshakes_decode(irq::ACK_PACKET@);
    laws::law_handshakes_decode(irq::NAK_PACKET@);
    laws::law_handshakes_decode(irq::STALL_PACKET@);
    assert(irq::ACK_PACKET@ =~= seq![0x80u8, 0xd2u8]);
    assert(irq::NAK_PACKET@ =~= seq![0x80u8, 0x5au8]);
    assert(irq::STALL_PACKET@ =~= seq![0x80u8, 0x1eu8]);
    assert forall|i: int| 0 <= i < 16 implies fresh(#[trigger] state.ep_in_states@[i]) by {
        assert(state@.ep_in[i] == state.ep_in_states@[i]@);
    }
    assert forall|i: int| 0 <= i < 16 implies fresh(#[trigger] state.ep_out_states@[i]) by {
        assert(state@.ep_out[i] == state.ep_out_states@[i]@);
    }
}

/// The control words of both channels. State machine `sm` raises request `sm` for its transmit
/// FIFO and `4 + sm` for its receive FIFO, and in the second PIO block eight more. The
/// transmitter reads on through memory, and the receiver writes on.
pub proof fn law_channel_controls(is_pio0: bool, sm: usize, tx: u32, rx: u32)
    requires
        sm < 4,
        call_ensures(dma::tx_control, (is_pio0, sm), tx),
        call_ensures(dma::rx_control, (is_pio0, sm), rx),
    ensures
        controls(
            tx,
            sm + (if is_pio0 {
                0int
            } else {
                8
            }),
            true,
            false,
        ),
        controls(
            rx,
            4 + sm + (if is_pio0 {
                0int
            } else {
                8
            }),
            false,
            true,
        ),
{
    let base = if is_pio0 {
        0int
    } else {
        8
    };
    lemma_controls(tx, sm + base, true, false);
    lemma_controls(rx, 4 + sm + base, false, true);
}

/// The instructions that prepare the decoder are a `mov` into the output shift register of the
/// complement of nothing, and one into X of nothing.
pub proof fn law_instructions(fill: u16, clear: u16)
    requires
        call_ensures(instruction::fill_osr, (), fill),
        call_ensures(instruction::clear_x, (), clear),
    ensures
        fill / 0x2000 == 5 && fill / 256 % 32 == 0 && fill / 32 % 8 == 7 && fill / 8 % 4 == 1 && fill
            % 8 == 3,
        clear / 0x2000 == 5 && clear / 256 % 32 == 0 && clear / 32 % 8 == 1 && clear / 8 % 4 == 0
            && clear % 8 == 3,
{
}

/// An endpoint that is disabled, idle and empty.
pub open spec fn fresh(endpoint: EndpointState) -> bool {
    &&& !endpoint.enabled
    &&& endpoint.status == EndpointStatus::Idle
    &&& endpoint.rx_len == 0
    &&& endpoint.tx_encoded_len == 0
    &&& forall|i: int| 0 <= i < 64 ==> #[trigger] endpoint.rx_buf@[i] == 0
    &&& forall|i: int| 0 <= i < 156 ==> #[trigger] endpoint.tx_encoded_buf@[i] == 0
}

/// What is kept for the handshakes decodes to the three handshake packets.
pub open spec fn keeps_handshakes(state: UsbIrqState) -> bool {
    &&& phy::laws::decoded(state.encoded_ack@) == seq![0x80u8, 0xd2u8]
    &&& phy::laws::decoded(state.encoded_nak@) == seq![0x80u8, 0x5au8]
    &&& phy::laws::decoded(state.encoded_stall@) == seq![0x80u8, 0x1eu8]
}

/// A new shared state has what it was given, the three handshakes, and nothing else in it.
pub proof fn law_new_state(tx_control: u32, rx_control: u32, mask: u32, state: UsbIrqState)
    requires
        call_ensures(UsbIrqState::new, (tx_control, rx_control, mask), state),
    ensures
        state.wf(),
        state.tx_dma_ctrl_word == tx_control,
        state.rx_dma_ctrl_word == rx_control,
        state.dp_dm_mask == mask,
        keeps_handshakes(state),
        forall|i: int| 0 <= i < 16 ==> fresh(#[trigger] state.ep_in_states@[i]),
        forall|i: int| 0 <= i < 16 ==> fresh(#[trigger] state.ep_out_states@[i]),
        forall|i: int| 0 <= i < 128 ==> #[trigger] state.rx_dma_buf@[i] == 0,
        state.bus_event is None,
        state.expect_data is None,
        state.last_tx_ep is None,
{
    lemma_initial(state);
}

/// A device starts with every endpoint disabled, idle and empty, with nothing expected and no
/// event, with the three handshakes at hand, with channels that serve its own state machines
/// and a mask of its own lines.
pub proof fn law_start(
    driver: PioUsbDriver,
    control_max_packet_size: u16,
    is_pio0: bool,
    sm_tx: usize,
    sm_eop: usize,
    started: (PioUsbBus, PioControlPipe, StartPlan),
)
    requires
        sm_tx < 4,
        sm_eop < 4,
        driver.hw.dp_pin < 32,
        driver.hw.dm_pin < 32,
        call_ensures(
            PioUsbDriver::start,
            (driver, control_max_packet_size, is_pio0, sm_tx, sm_eop),
            started,
        ),
    ensures
        started.0._hw == driver.hw,
        started.2.fill_osr == 0xa0eb,
        started.2.clear_x == 0xa023,
        started.2.rx_count == 128,
        ({
            let state = started.2.state;
            &&& state.wf()
            &&& keeps_handshakes(state)
            &&& forall|i: int| 0 <= i < 16 ==> fresh(#[trigger] state.ep_in_states@[i])
            &&& forall|i: int| 0 <= i < 16 ==> fresh(#[trigger] state.ep_out_states@[i])
            &&& forall|i: int| 0 <= i < 128 ==> #[trigger] state.rx_dma_buf@[i] == 0
            &&& state.bus_event is None
            &&& state.expect_data is None
            &&& state.last_tx_ep is None
            &&& picks_lines(state.dp_dm_mask, driver.hw.dp_pin, driver.hw.dm_pin)
            &&& controls(
                state.tx_dma_ctrl_word,
                sm_tx + (if is_pio0 {
                    0int
                } else {
                    8
                }),
                true,
                false,
            )
            &&& controls(
                state.rx_dma_ctrl_word,
                4 + sm_eop + (if is_pio0 {
                    0int
                } else {
                    8
                }),
                false,
                true,
            )
        }),
{
    let state = started.2.state;
    let base = if is_pio0 {
        0int
    } else {
        8
    };
    lemma_initial(state);
    lemma_picks_lines(state.dp_dm_mask, driver.hw.dp_pin, driver.hw.dm_pin);
    lemma_controls(state.tx_dma_ctrl_word, sm_tx + base, true, false);
    lemma_controls(state.rx_dma_ctrl_word, 4 + sm_eop + base, false, true);
}

/// One of the calls that work on the shared state is made on `s`.
pub open spec fn worked_on(s: &mut UsbIrqState) -> bool {
    ||| exists|len: usize, response: Response|
        s@.fits(len as int) && #[trigger] call_ensures(UsbIrqState::on_packet, (s, len), response)
    ||| call_ensures(UsbIrqState::bus_reset, (s,), ())
    ||| exists|h: &mut PioUsbIrqHandler, input: u32, action: IrqAction|
        h.admits(s@, input) && #[trigger] call_ensures(
            PioUsbIrqHandler::on_interrupt,
            (h, s, input),
            action,
        )
    ||| exists|ep: PioEndpointOut|
        ep.wf() && #[trigger] call_ensures(PioEndpointOut::read, (&ep, s), ())
    ||| exists|ep: PioEndpointIn, buf: &[u8]|
        ep.wf() && buf@.len() <= 66 && #[trigger] call_ensures(
            PioEndpointIn::write,
            (&ep, s, buf),
            (),
        )
    ||| exists|pipe: PioControlPipe, packet: Poll<[u8; 8]>| #[trigger]
        call_ensures(PioControlPipe::setup, (&pipe, s), packet)
    ||| exists|pipe: PioControlPipe, first: bool, last: bool| #[trigger]
        call_ensures(PioControlPipe::data_out, (&pipe, s, first, last), ())
    ||| exists|pipe: PioControlPipe, data: &[u8], first: bool, last: bool|
        data@.len() <= 66 && #[trigger] call_ensures(
            PioControlPipe::data_in,
            (&pipe, s, data, first, last),
            (),
        )
    ||| exists|pipe: PioControlPipe| #[trigger]
        call_ensures(PioControlPipe::accept, (&pipe, s), ())
    ||| exists|pipe: PioControlPipe| #[trigger]
        call_ensures(PioControlPipe::reject, (&pipe, s), ())
    ||| exists|bus: PioUsbBus, event: Poll<Event>| #[trigger]
        call_ensures(PioUsbBus::poll, (&bus, s), event)
    ||| exists|bus: PioUsbBus, address: EndpointAddress, stalled: bool|
        address.raw % 128 < 16 && #[trigger] call_ensures(
            PioUsbBus::endpoint_set_stalled,
            (&bus, s, address, stalled),
            (),
        )
    ||| exists|bus: PioUsbBus, address: EndpointAddress, enabled: bool, wake: Option<WakeTarget>|
        address.raw % 128 < 16 && #[trigger] call_ensures(
            PioUsbBus::endpoint_set_enabled,
            (&bus, s, address, enabled),
            wake,
        )
}

/// No call changes what is kept for the handshakes.
proof fn lemma_lasting(s: &mut UsbIrqState)
    requires
        s.wf(),
        worked_on(s),
    ensures
        final(s).wf(),
        final(s).encoded_ack@ == old(s).encoded_ack@,
        final(s).encoded_nak@ == old(s).encoded_nak@,
        final(s).encoded_stall@ == old(s).encoded_stall@,
{
}

/// Behind any number of calls, with bytes received between them, the handshakes are what they
/// were in the first state.
proof fn lemma_kept(calls: Seq<&mut UsbIrqState>, n: int)
    requires
        0 <= n < calls.len(),
        calls[0].wf(),
        forall|k: int| 0 <= k < calls.len() ==> worked_on(#[trigger] calls[k]),
        forall|k: int|
            0 < k < calls.len() ==> transfers::heard(*final(calls[k - 1]), *(#[trigger] calls[k])),
    ensures
        final(calls[n]).wf(),
        final(calls[n]).encoded_ack@ == calls[0].encoded_ack@,
        final(calls[n]).encoded_nak@ == calls[0].encoded_nak@,
        final(calls[n]).encoded_stall@ == calls[0].encoded_stall@,
    decreases n,
{
    if n > 0 {
        lemma_kept(calls, n - 1);
        packets::law_valid_state(*final(calls[n - 1]));
        packets::law_valid_state(*calls[n]);
        assert(transfers::heard(*final(calls[n - 1]), *calls[n]));
    }
    assert(worked_on(calls[n]));
    lemma_lasting(calls[n]);
}

/// However long a started device runs and whatever is called on it, its handshakes go over the
/// line as the packets that the host expects.
pub proof fn law_handshakes_last(
    driver: PioUsbDriver,
    control_max_packet_size: u16,
    is_pio0: bool,
    sm_tx: usize,
    sm_eop: usize,
    started: (PioUsbBus, PioControlPipe, StartPlan),
    calls: Seq<&mut UsbIrqState>,
    n: int,
    source: TxSource,
    bytes: &[u8],
)
    requires
        sm_tx < 4,
        sm_eop < 4,
        driver.hw.dp_pin < 32,
        driver.hw.dm_pin < 32,
        call_ensures(
            PioUsbDriver::start,
            (driver, control_max_packet_size, is_pio0, sm_tx, sm_eop),
            started,
        ),
        0 <= n < calls.len(),
        transfers::heard(started.2.state, *calls[0]),
        forall|k: int| 0 <= k < calls.len() ==> worked_on(#[trigger] calls[k]),
        forall|k: int|
            0 < k < calls.len() ==> transfers::heard(*final(calls[k - 1]), *(#[trigger] calls[k])),
        source !is Endpoint,
        call_ensures(UsbIrqState::transmission, (&*final(calls[n]), source), bytes),
    ensures
        source == TxSource::Ack ==> phy::laws::decoded(bytes@) == seq![0x80u8, 0xd2u8],
        source == TxSource::Nak ==> phy::laws::decoded(bytes@) == seq![0x80u8, 0x5au8],
        source == TxSource::Stall ==> phy::laws::decoded(bytes@) == seq![0x80u8, 0x1eu8],
{
    law_start(driver, control_max_packet_size, is_pio0, sm_tx, sm_eop, started);
    packets::law_valid_state(started.2.state);
    packets::law_valid_state(*calls[0]);
    lemma_kept(calls, n);
    packets::law_transmission(*final(calls[n]), source, bytes);
}

} // verus!
