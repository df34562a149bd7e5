//! What the bytes on the line mean, and what each packet does to the shared state.
//!
//! The laws here speak of the bytes themselves and of the fields of the shared state, before
//! and after a call.
use vstd::prelude::*;
use crate::driver::endpoint::{EndpointState, EndpointStatus};
use crate::driver::irq;
use crate::driver::irq::{Event, Packet, Response, TxSource, UsbIrqState, WakeTarget};

verus! {

/// PID bytes: the packet's kind in the low four bits, its complement in the high four.
pub const SETUP: u8 = 0x2d;

pub const OUT: u8 = 0xe1;

pub const IN: u8 = 0x69;

pub const DATA0: u8 = 0xc3;

pub const DATA1: u8 = 0x4b;

pub const ACK: u8 = 0xd2;

/// `bytes` begin with a token: behind SYNC and PID, sixteen bits from the lowest up that hold
/// seven bits of device address, four of endpoint number and five of CRC.
pub open spec fn is_token(bytes: Seq<u8>, pid: u8, address: int, endpoint: int, crc: int) -> bool {
    &&& 0 <= address < 128
    &&& 0 <= endpoint < 16
    &&& 0 <= crc < 32
    &&& bytes.len() >= 4
    &&& bytes[1] == pid
    &&& bytes[2] + 256 * bytes[3] == address + 128 * endpoint + 2048 * crc
}

/// `bytes` begin with a data packet: SYNC, the PID of either parity, the payload and two bytes
/// of CRC.
pub open spec fn is_data(bytes: Seq<u8>, payload: Seq<u8>) -> bool {
    &&& bytes.len() >= payload.len() + 4
    &&& bytes[1] == DATA0 || bytes[1] == DATA1
    &&& bytes.subrange(2, 2 + payload.len() as int) == payload
}

/// Both hold the same in every field.
pub open spec fn same_endpoint(a: EndpointState, b: EndpointState) -> bool {
    &&& a.rx_buf@ == b.rx_buf@
    &&& a.rx_len == b.rx_len
    &&& a.tx_encoded_buf@ == b.tx_encoded_buf@
    &&& a.tx_encoded_len == b.tx_encoded_len
    &&& a.status == b.status
    &&& a.enabled == b.enabled
}

/// Both hold the same but for the status.
pub open spec fn same_but_status(a: EndpointState, b: EndpointState) -> bool {
    &&& a.rx_buf@ == b.rx_buf@
    &&& a.rx_len == b.rx_len
    &&& a.tx_encoded_buf@ == b.tx_encoded_buf@
    &&& a.tx_encoded_len == b.tx_encoded_len
    &&& a.enabled == b.enabled
}

/// All IN endpoints hold the same, but for endpoint `n` where there is one.
pub open spec fn same_in_but(a: UsbIrqState, b: UsbIrqState, n: int) -> bool {
    forall|i: int|
        0 <= i < 16 && i != n ==> same_endpoint(#[trigger] a.ep_in_states@[i], b.ep_in_states@[i])
}

/// All OUT endpoints hold the same, but for endpoint `n` where there is one.
pub open spec fn same_out_but(a: UsbIrqState, b: UsbIrqState, n: int) -> bool {
    forall|i: int|
        0 <= i < 16 && i != n ==> same_endpoint(#[trigger] a.ep_out_states@[i], b.ep_out_states@[i])
}

/// All that is set when the device starts, and what has been received, is the same.
pub open spec fn same_setup(a: UsbIrqState, b: UsbIrqState) -> bool {
    &&& a.encoded_ack@ == b.encoded_ack@
    &&& a.encoded_nak@ == b.encoded_nak@
    &&& a.encoded_stall@ == b.encoded_stall@
    &&& a.tx_dma_ctrl_word == b.tx_dma_ctrl_word
    &&& a.rx_dma_buf@ == b.rx_dma_buf@
    &&& a.rx_dma_ctrl_word == b.rx_dma_ctrl_word
    &&& a.dp_dm_mask == b.dp_dm_mask
}

/// What is kept between packets and for the bus is the same.
pub open spec fn same_progress(a: UsbIrqState, b: UsbIrqState) -> bool {
    &&& a.bus_event == b.bus_event
    &&& a.expect_data == b.expect_data
    &&& a.last_tx_ep == b.last_tx_ep
}

/// Nothing differs.
pub open spec fn same_state(a: UsbIrqState, b: UsbIrqState) -> bool {
    &&& same_in_but(a, b, -1)
    &&& same_out_but(a, b, -1)
    &&& same_setup(a, b)
    &&& same_progress(a, b)
}

/// Nothing differs but IN endpoint `n`.
pub open spec fn only_in(a: UsbIrqState, b: UsbIrqState, n: int) -> bool {
    &&& same_in_but(a, b, n)
    &&& same_out_but(a, b, -1)
    &&& same_setup(a, b)
    &&& same_progress(a, b)
}

/// Nothing differs but OUT endpoint `n`.
pub open spec fn only_out(a: UsbIrqState, b: UsbIrqState, n: int) -> bool {
    &&& same_in_but(a, b, -1)
    &&& same_out_but(a, b, n)
    &&& same_setup(a, b)
    &&& same_progress(a, b)
}

/// Endpoints whose contents agree agree in every field.
pub(crate) proof fn lemma_same_in(a: UsbIrqState, b: UsbIrqState, n: int)
    requires
        forall|i: int| 0 <= i < 16 && i != n ==> #[trigger] a@.ep_in[i] == b@.ep_in[i],
    ensures
        same_in_but(a, b, n),
{
    assert forall|i: int| 0 <= i < 16 && i != n implies same_endpoint(
        #[trigger] a.ep_in_states@[i],
        b.ep_in_states@[i],
    ) by {
        assert(a@.ep_in[i] == b@.ep_in[i]);
    }
}

/// Endpoints whose contents agree agree in every field.
pub(crate) proof fn lemma_same_out(a: UsbIrqState, b: UsbIrqState, n: int)
    requires
        forall|i: int| 0 <= i < 16 && i != n ==> #[trigger] a@.ep_out[i] == b@.ep_out[i],
    ensures
        same_out_but(a, b, n),
{
    assert forall|i: int| 0 <= i < 16 && i != n implies same_endpoint(
        #[trigger] a.ep_out_states@[i],
        b.ep_out_states@[i],
    ) by {
        assert(a@.ep_out[i] == b@.ep_out[i]);
    }
}

/// The shared state is valid exactly when every payload and every prepared packet lies within
/// its buffer and the endpoint numbers that are kept are below sixteen.
pub proof fn law_valid_state(state: UsbIrqState)
    ensures
        state.wf() <==> {
            &&& forall|i: int|
                0 <= i < 16 ==> (#[trigger] state.ep_in_states@[i]).rx_len <= 64
                    && state.ep_in_states@[i].tx_encoded_len <= 156
            &&& forall|i: int|
                0 <= i < 16 ==> (#[trigger] state.ep_out_states@[i]).rx_len <= 64
                    && state.ep_out_states@[i].tx_encoded_len <= 156
            &&& state.expect_data matches Some(expected) ==> expected.0 < 16
            &&& state.last_tx_ep matches Some(ep) ==> ep < 16
        },
{
    assert forall|i: int| 0 <= i < 16 implies #[trigger] state@.ep_in[i]
        == state.ep_in_states@[i]@ by {}
    assert forall|i: int| 0 <= i < 16 implies #[trigger] state@.ep_out[i]
        == state.ep_out_states@[i]@ by {}
    if state.wf() {
        assert forall|i: int| 0 <= i < 16 implies (#[trigger] state.ep_in_states@[i]).rx_len <= 64
            && state.ep_in_states@[i].tx_encoded_len <= 156 by {
            assert(state@.ep_in[i].wf());
        }
        assert forall|i: int| 0 <= i < 16 implies (#[trigger] state.ep_out_states@[i]).rx_len <= 64
            && state.ep_out_states@[i].tx_encoded_len <= 156 by {
            assert(state@.ep_out[i].wf());
        }
    }
}

/// What the bytes of a token are recognised as.
proof fn lemma_token(bytes: Seq<u8>, len: int, address: int, endpoint: int, crc: int)
    requires
        len >= 4,
        is_token(bytes, bytes[1], address, endpoint, crc),
    ensures
        bytes[1] == SETUP ==> irq::packet_of(bytes, len) == Packet::Setup(endpoint as u8),
        bytes[1] == OUT ==> irq::packet_of(bytes, len) == Packet::Out(endpoint as u8),
        bytes[1] == IN ==> irq::packet_of(bytes, len) == Packet::In(endpoint as u8),
{
    assert(bytes[2] as int / 128 + 2 * (bytes[3] as int % 8) == endpoint);
}

/// A token names the endpoint that stands in its four endpoint bits, whatever the device
/// address and the CRC are.
pub proof fn law_token_packet(
    state: UsbIrqState,
    len: usize,
    address: int,
    endpoint: int,
    crc: int,
    packet: Packet,
)
    requires
        len >= 4,
        is_token(state.rx_dma_buf@, state.rx_dma_buf@[1], address, endpoint, crc),
        call_ensures(UsbIrqState::packet, (&state, len), packet),
    ensures
        state.rx_dma_buf@[1] == SETUP ==> packet == Packet::Setup(endpoint as u8),
        state.rx_dma_buf@[1] == OUT ==> packet == Packet::Out(endpoint as u8),
        state.rx_dma_buf@[1] == IN ==> packet == Packet::In(endpoint as u8),
{
    lemma_token(state.rx_dma_buf@, len as int, address, endpoint, crc);
}

/// The PID byte alone tells what kind of packet it is, but that a token takes four bytes; of
/// all other PID bytes none is recognised.
pub proof fn law_packet_kind(state: UsbIrqState, len: usize, packet: Packet)
    requires
        call_ensures(UsbIrqState::packet, (&state, len), packet),
    ensures
        packet is Setup <==> state.rx_dma_buf@[1] == SETUP && len >= 4,
        packet is Out <==> state.rx_dma_buf@[1] == OUT && len >= 4,
        packet is In <==> state.rx_dma_buf@[1] == IN && len >= 4,
        packet is Data <==> state.rx_dma_buf@[1] == DATA0 || state.rx_dma_buf@[1] == DATA1,
        packet is Ack <==> state.rx_dma_buf@[1] == ACK,
{
}

/// The only packets that cannot be processed are those that do not lie in the receive buffer
/// and data for which a task waits, or that a SETUP token announced, with more than 64 bytes
/// of payload.
pub proof fn law_packet_fits(state: UsbIrqState, len: usize, fits: bool)
    requires
        state.wf(),
        call_ensures(UsbIrqState::packet_fits, (&state, len), fits),
    ensures
        fits <==> {
            &&& 2 <= len <= 128
            &&& (state.rx_dma_buf@[1] == DATA0 || state.rx_dma_buf@[1] == DATA1) && len > 68 ==> match state.expect_data {
                None => true,
                Some((ep, is_setup)) => !is_setup && state.ep_out_states@[ep as int].status
                    != EndpointStatus::RxReady,
            }
        },
{
}

/// A SETUP or OUT token is not answered. It announces data for the endpoint that it names,
/// whatever was announced before, and does nothing else.
pub proof fn law_token_announces(
    state: &mut UsbIrqState,
    len: usize,
    address: int,
    endpoint: int,
    crc: int,
    response: Response,
)
    requires
        state.wf(),
        4 <= len <= 128,
        is_token(state.rx_dma_buf@, state.rx_dma_buf@[1], address, endpoint, crc),
        state.rx_dma_buf@[1] == SETUP || state.rx_dma_buf@[1] == OUT,
        call_ensures(UsbIrqState::on_packet, (state, len), response),
    ensures
        response == (Response { wake: None, send: None }),
        final(state).expect_data == Some((endpoint as u8, old(state).rx_dma_buf@[1] == SETUP)),
        final(state).last_tx_ep == old(state).last_tx_ep,
        final(state).bus_event == old(state).bus_event,
        same_in_but(*old(state), *final(state), -1),
        same_out_but(*old(state), *final(state), -1),
        same_setup(*old(state), *final(state)),
{
    lemma_token(old(state).rx_dma_buf@, len as int, address, endpoint, crc);
    lemma_same_in(*old(state), *final(state), -1);
    lemma_same_out(*old(state), *final(state), -1);
}

/// An IN token is answered for the endpoint that it names: with the prepared packet, which
/// then waits for its acknowledgement, with STALL where the endpoint is stalled, and with NAK
/// where it has nothing to send. No endpoint changes.
pub proof fn law_in_token_answered(
    state: &mut UsbIrqState,
    len: usize,
    address: int,
    endpoint: int,
    crc: int,
    response: Response,
)
    requires
        state.wf(),
        4 <= len <= 128,
        is_token(state.rx_dma_buf@, IN, address, endpoint, crc),
        call_ensures(UsbIrqState::on_packet, (state, len), response),
    ensures
        response.wake is None,
        ({
            let status = old(state).ep_in_states@[endpoint].status;
            if status == EndpointStatus::TxReady {
                &&& response.send == Some(TxSource::Endpoint(endpoint as u8))
                &&& final(state).last_tx_ep == Some(endpoint as u8)
            } else {
                &&& response.send == Some(
                    if status == EndpointStatus::Stalled {
                        TxSource::Stall
                    } else {
                        TxSource::Nak
                    },
                )
                &&& final(state).last_tx_ep == old(state).last_tx_ep
            }
        }),
        final(state).expect_data == old(state).expect_data,
        final(state).bus_event == old(state).bus_event,
        same_in_but(*old(state), *final(state), -1),
        same_out_but(*old(state), *final(state), -1),
        same_setup(*old(state), *final(state)),
{
    lemma_token(old(state).rx_dma_buf@, len as int, address, endpoint, crc);
    assert(old(state)@.ep_in[endpoint].status == old(state).ep_in_states@[endpoint].status);
    lemma_same_in(*old(state), *final(state), -1);
    lemma_same_out(*old(state), *final(state), -1);
}

/// Data that a SETUP token announced, or for which a task waits, are acknowledged and wake
/// the endpoint's task. The endpoint then holds exactly the payload; it has a SETUP packet or
/// is idle again, and the announcement is used up.
pub proof fn law_data_taken(
    state: &mut UsbIrqState,
    len: usize,
    payload: Seq<u8>,
    ep: u8,
    is_setup: bool,
    response: Response,
)
    requires
        state.wf(),
        len == payload.len() + 4,
        payload.len() <= 64,
        is_data(state.rx_dma_buf@, payload),
        state.expect_data == Some((ep, is_setup)),
        is_setup || state.ep_out_states@[ep as int].status == EndpointStatus::RxReady,
        call_ensures(UsbIrqState::on_packet, (state, len), response),
    ensures
        response == (Response { wake: Some(WakeTarget::Out(ep)), send: Some(TxSource::Ack) }),
        ({
            let before = old(state).ep_out_states@[ep as int];
            let after = final(state).ep_out_states@[ep as int];
            &&& after.rx_len == payload.len()
            &&& forall|i: int| 0 <= i < payload.len() ==> #[trigger] after.rx_buf@[i] == payload[i]
            &&& forall|i: int|
                payload.len() <= i < 64 ==> #[trigger] after.rx_buf@[i] == before.rx_buf@[i]
            &&& after.status == if is_setup {
                EndpointStatus::SetupReceived
            } else {
                EndpointStatus::Idle
            }
            &&& after.enabled == before.enabled
            &&& after.tx_encoded_buf@ == before.tx_encoded_buf@
            &&& after.tx_encoded_len == before.tx_encoded_len
        }),
        final(state).expect_data is None,
        final(state).last_tx_ep == old(state).last_tx_ep,
        final(state).bus_event == old(state).bus_event,
        same_in_but(*old(state), *final(state), -1),
        same_out_but(*old(state), *final(state), ep as int),
        same_setup(*old(state), *final(state)),
{
    let n = ep as int;
    assert(old(state)@.ep_out[n] == old(state).ep_out_states@[n]@);
    assert(old(state)@.ep_out[n].wf());
    assert(final(state)@.ep_out[n] == final(state).ep_out_states@[n]@);
    lemma_same_in(*old(state), *final(state), -1);
    lemma_same_out(*old(state), *final(state), n);
    let after = final(state).ep_out_states@[n];
    assert forall|i: int| 0 <= i < payload.len() implies #[trigger] after.rx_buf@[i] == payload[i] by {
        assert(payload[i] == old(state).rx_dma_buf@.subrange(2, 2 + payload.len() as int)[i]);
    }
}

/// Announced data are dropped where no task waits for them, with STALL from a stalled
/// endpoint and NAK from any other. The announcement is used up and nothing else changes.
pub proof fn law_data_refused(
    state: &mut UsbIrqState,
    len: usize,
    ep: u8,
    response: Response,
)
    requires
        state.wf(),
        2 <= len <= 128,
        state.rx_dma_buf@[1] == DATA0 || state.rx_dma_buf@[1] == DATA1,
        state.expect_data == Some((ep, false)),
        state.ep_out_states@[ep as int].status != EndpointStatus::RxReady,
        call_ensures(UsbIrqState::on_packet, (state, len), response),
    ensures
        response == (Response {
            wake: None,
            send: Some(
                if old(state).ep_out_states@[ep as int].status == EndpointStatus::Stalled {
                    TxSource::Stall
                } else {
                    TxSource::Nak
                },
            ),
        }),
        final(state).expect_data is None,
        final(state).last_tx_ep == old(state).last_tx_ep,
        final(state).bus_event == old(state).bus_event,
        same_in_but(*old(state), *final(state), -1),
        same_out_but(*old(state), *final(state), -1),
        same_setup(*old(state), *final(state)),
{
    assert(old(state)@.ep_out[ep as int] == old(state).ep_out_states@[ep as int]@);
    lemma_same_in(*old(state), *final(state), -1);
    lemma_same_out(*old(state), *final(state), -1);
}

/// Data that would be taken but are too short to hold their CRC use up the announcement, and
/// that is all.
pub proof fn law_data_cut_short(
    state: &mut UsbIrqState,
    len: usize,
    ep: u8,
    is_setup: bool,
    response: Response,
)
    requires
        state.wf(),
        2 <= len < 4,
        state.rx_dma_buf@[1] == DATA0 || state.rx_dma_buf@[1] == DATA1,
        state.expect_data == Some((ep, is_setup)),
        is_setup || state.ep_out_states@[ep as int].status == EndpointStatus::RxReady,
        call_ensures(UsbIrqState::on_packet, (state, len), response),
    ensures
        response == (Response { wake: None, send: None }),
        final(state).expect_data is None,
        final(state).last_tx_ep == old(state).last_tx_ep,
        final(state).bus_event == old(state).bus_event,
        same_in_but(*old(state), *final(state), -1),
        same_out_but(*old(state), *final(state), -1),
        same_setup(*old(state), *final(state)),
{
    assert(old(state)@.ep_out[ep as int] == old(state).ep_out_states@[ep as int]@);
    lemma_same_in(*old(state), *final(state), -1);
    lemma_same_out(*old(state), *final(state), -1);
}

/// An acknowledgement goes to the endpoint that sent last: it becomes idle and its task is
/// woken. Nothing is sent, and a second acknowledgement finds nobody.
pub proof fn law_ack_completes(state: &mut UsbIrqState, len: usize, ep: u8, response: Response)
    requires
        state.wf(),
        2 <= len <= 128,
        state.rx_dma_buf@[1] == ACK,
        state.last_tx_ep == Some(ep),
        call_ensures(UsbIrqState::on_packet, (state, len), response),
    ensures
        response == (Response { wake: Some(WakeTarget::In(ep)), send: None }),
        final(state).ep_in_states@[ep as int].status == EndpointStatus::Idle,
        same_but_status(old(state).ep_in_states@[ep as int], final(state).ep_in_states@[ep as int]),
        final(state).last_tx_ep is None,
        final(state).expect_data == old(state).expect_data,
        final(state).bus_event == old(state).bus_event,
        same_in_but(*old(state), *final(state), ep as int),
        same_out_but(*old(state), *final(state), -1),
        same_setup(*old(state), *final(state)),
{
    assert(old(state)@.ep_in[ep as int] == old(state).ep_in_states@[ep as int]@);
    assert(final(state)@.ep_in[ep as int] == final(state).ep_in_states@[ep as int]@);
    lemma_same_in(*old(state), *final(state), ep as int);
    lemma_same_out(*old(state), *final(state), -1);
}

/// All else is ignored and changes nothing: other PIDs and damaged ones, tokens of fewer than
/// four bytes, data that no token announced, and acknowledgements of nothing.
pub proof fn law_packet_ignored(state: &mut UsbIrqState, len: usize, response: Response)
    requires
        state.wf(),
        2 <= len <= 128,
        state.rx_dma_buf@[1] == SETUP || state.rx_dma_buf@[1] == OUT || state.rx_dma_buf@[1] == IN
            ==> len < 4,
        state.rx_dma_buf@[1] == DATA0 || state.rx_dma_buf@[1] == DATA1 ==> state.expect_data is None,
        state.rx_dma_buf@[1] == ACK ==> state.last_tx_ep is None,
        call_ensures(UsbIrqState::on_packet, (state, len), response),
    ensures
        response == (Response { wake: None, send: None }),
        same_state(*old(state), *final(state)),
{
    lemma_same_in(*old(state), *final(state), -1);
    lemma_same_out(*old(state), *final(state), -1);
}

/// What is transmitted is what the state holds for it, and of an endpoint's buffer exactly as
/// much as has been prepared.
pub proof fn law_transmission(state: UsbIrqState, source: TxSource, bytes: &[u8])
    requires
        state.wf(),
        source matches TxSource::Endpoint(ep) ==> ep < 16,
        call_ensures(UsbIrqState::transmission, (&state, source), bytes),
    ensures
        bytes@ == match source {
            TxSource::Ack => state.encoded_ack@,
            TxSource::Nak => state.encoded_nak@,
            TxSource::Stall => state.encoded_stall@,
            TxSource::Endpoint(ep) => state.ep_in_states@[ep as int].tx_encoded_buf@.take(
                state.ep_in_states@[ep as int].tx_encoded_len as int,
            ),
        },
{
}

/// The endpoint is disabled and idle, and otherwise as it was.
pub open spec fn switched_off(before: EndpointState, after: EndpointState) -> bool {
    &&& !after.enabled
    &&& after.status == EndpointStatus::Idle
    &&& after.rx_buf@ == before.rx_buf@
    &&& after.rx_len == before.rx_len
    &&& after.tx_encoded_buf@ == before.tx_encoded_buf@
    &&& after.tx_encoded_len == before.tx_encoded_len
}

/// A bus reset disables every endpoint and makes it idle, and leaves an event to be polled;
/// what the endpoints hold and what is expected of the host stays.
pub proof fn law_bus_reset(state: &mut UsbIrqState)
    requires
        state.wf(),
        call_ensures(UsbIrqState::bus_reset, (state,), ()),
    ensures
        final(state).bus_event == Some(Event::Reset),
        final(state).expect_data == old(state).expect_data,
        final(state).last_tx_ep == old(state).last_tx_ep,
        same_setup(*old(state), *final(state)),
        forall|i: int|
            0 <= i < 16 ==> switched_off(
                old(state).ep_in_states@[i],
                #[trigger] final(state).ep_in_states@[i],
            ),
        forall|i: int|
            0 <= i < 16 ==> switched_off(
                old(state).ep_out_states@[i],
                #[trigger] final(state).ep_out_states@[i],
            ),
{
    assert forall|i: int| 0 <= i < 16 implies switched_off(
        old(state).ep_in_states@[i],
        #[trigger] final(state).ep_in_states@[i],
    ) by {
        assert(old(state)@.ep_in[i] == old(state).ep_in_states@[i]@);
        assert(final(state)@.ep_in[i] == final(state).ep_in_states@[i]@);
    }
    assert forall|i: int| 0 <= i < 16 implies switched_off(
        old(state).ep_out_states@[i],
        #[trigger] final(state).ep_out_states@[i],
    ) by {
        assert(old(state)@.ep_out[i] == old(state).ep_out_states@[i]@);
        assert(final(state)@.ep_out[i] == final(state).ep_out_states@[i]@);
    }
}

} // verus!
