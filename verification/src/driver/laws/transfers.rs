//! Whole transfers: what a task and the host get of each other, call by call.
use vstd::prelude::*;
use crate::driver::address::EndpointAddress;
use crate::driver::bus::PioUsbBus;
use crate::driver::control::PioControlPipe;
use crate::driver::endpoint::{
    EndpointError, EndpointStatus, PioEndpointIn, PioEndpointOut, Poll,
};
use crate::driver::irq::{Event, Response, TxSource, UsbIrqState, WakeTarget};
use crate::driver::laws::operations;
use crate::driver::laws::packets;
use crate::phy;

verus! {

/// Between `before` and `after` nothing has happened but that bytes were received.
pub open spec fn heard(before: UsbIrqState, after: UsbIrqState) -> bool {
    after == (UsbIrqState { rx_dma_buf: after.rx_dma_buf, ..before })
}

/// Receiving bytes leaves the state valid.
proof fn lemma_heard(before: UsbIrqState, after: UsbIrqState)
    requires
        before.wf(),
        heard(before, after),
    ensures
        after.wf(),
{
    packets::law_valid_state(before);
    packets::law_valid_state(after);
}

/// A packet that can be processed leaves the state valid.
proof fn lemma_processed(state: &mut UsbIrqState, len: usize, response: Response)
    requires
        state.wf(),
        state@.fits(len as int),
        call_ensures(UsbIrqState::on_packet, (state, len), response),
    ensures
        final(state).wf(),
{
}

/// What the host sends is what a task reads. Whatever state the endpoint was in, a read is
/// pending; the OUT token for the endpoint, from any address and with any CRC, is not
/// answered; the data packet behind it is acknowledged and wakes the task; and the read then
/// gives exactly the payload.
pub proof fn law_read_delivers(
    ep: PioEndpointOut,
    reading: &mut UsbIrqState,
    early: &mut [u8],
    nothing: Poll<Result<usize, EndpointError>>,
    token: &mut UsbIrqState,
    token_len: usize,
    address: int,
    crc: int,
    silence: Response,
    data: &mut UsbIrqState,
    data_len: usize,
    payload: Seq<u8>,
    answer: Response,
    buf: &mut [u8],
    received: Poll<Result<usize, EndpointError>>,
)
    requires
        ep.wf(),
        reading.wf(),
        call_ensures(PioEndpointOut::read, (&ep, reading), ()),
        call_ensures(PioEndpointOut::poll_read, (&ep, &*final(reading), early), nothing),
        heard(*final(reading), *token),
        4 <= token_len <= 128,
        packets::is_token(
            token.rx_dma_buf@,
            packets::OUT,
            address,
            ep.info.addr.raw as int % 128,
            crc,
        ),
        call_ensures(UsbIrqState::on_packet, (token, token_len), silence),
        heard(*final(token), *data),
        payload.len() <= 64,
        data_len == payload.len() + 4,
        packets::is_data(data.rx_dma_buf@, payload),
        call_ensures(UsbIrqState::on_packet, (data, data_len), answer),
        payload.len() <= buf@.len(),
        call_ensures(PioEndpointOut::poll_read, (&ep, &*final(data), buf), received),
    ensures
        nothing == Poll::<Result<usize, EndpointError>>::Pending,
        final(early)@ == old(early)@,
        silence == (Response { wake: None, send: None }),
        answer == (Response {
            wake: Some(WakeTarget::Out((ep.info.addr.raw as int % 128) as u8)),
            send: Some(TxSource::Ack),
        }),
        received == Poll::<Result<usize, EndpointError>>::Ready(Ok(payload.len() as usize)),
        final(buf)@ == payload + old(buf)@.skip(payload.len() as int),
{
    let n = ep.info.addr.raw as int % 128;
    operations::law_read(ep, reading);
    operations::law_poll_read(ep, *final(reading), early, nothing);
    lemma_heard(*final(reading), *token);
    packets::law_token_announces(token, token_len, address, n, crc, silence);
    lemma_processed(token, token_len, silence);
    lemma_heard(*final(token), *data);
    assert(token.ep_out_states@[n].status == EndpointStatus::RxReady);
    assert(packets::same_endpoint(token.ep_out_states@[n], final(token).ep_out_states@[n]));
    packets::law_data_taken(data, data_len, payload, n as u8, false, answer);
    lemma_processed(data, data_len, answer);
    operations::law_poll_read(ep, *final(data), buf, received);
    let endpoint = final(data).ep_out_states@[n];
    assert forall|i: int| 0 <= i < payload.len() implies #[trigger] final(buf)@[i] == payload[i] by {
        assert(endpoint.rx_buf@[i] == payload[i]);
    }
    assert(final(buf)@ =~= payload + old(buf)@.skip(payload.len() as int));
}

/// The data stage of a control request. Whatever the control pipe has received before, behind
/// `data_out` there is nothing to be had until the host sends; its data packet is acknowledged
/// and wakes the pipe; and `poll_data_out` then gives exactly the payload.
pub proof fn law_data_out_delivers(
    pipe: PioControlPipe,
    waiting: &mut UsbIrqState,
    first: bool,
    last: bool,
    early: &mut [u8],
    nothing: Poll<Result<usize, EndpointError>>,
    token: &mut UsbIrqState,
    token_len: usize,
    address: int,
    crc: int,
    silence: Response,
    data: &mut UsbIrqState,
    data_len: usize,
    payload: Seq<u8>,
    answer: Response,
    buf: &mut [u8],
    received: Poll<Result<usize, EndpointError>>,
)
    requires
        waiting.wf(),
        call_ensures(PioControlPipe::data_out, (&pipe, waiting, first, last), ()),
        waiting.ep_out_states@[0].rx_len <= early@.len(),
        call_ensures(PioControlPipe::poll_data_out, (&pipe, &*final(waiting), early), nothing),
        heard(*final(waiting), *token),
        4 <= token_len <= 128,
        packets::is_token(token.rx_dma_buf@, packets::OUT, address, 0, crc),
        call_ensures(UsbIrqState::on_packet, (token, token_len), silence),
        heard(*final(token), *data),
        payload.len() <= 64,
        data_len == payload.len() + 4,
        packets::is_data(data.rx_dma_buf@, payload),
        call_ensures(UsbIrqState::on_packet, (data, data_len), answer),
        payload.len() <= buf@.len(),
        call_ensures(PioControlPipe::poll_data_out, (&pipe, &*final(data), buf), received),
    ensures
        nothing == Poll::<Result<usize, EndpointError>>::Pending,
        final(early)@ == old(early)@,
        silence == (Response { wake: None, send: None }),
        answer == (Response { wake: Some(WakeTarget::Out(0)), send: Some(TxSource::Ack) }),
        received == Poll::<Result<usize, EndpointError>>::Ready(Ok(payload.len() as usize)),
        final(buf)@ == payload + old(buf)@.skip(payload.len() as int),
{
    operations::law_data_out(pipe, waiting, first, last);
    operations::law_poll_data_out(pipe, *final(waiting), early, nothing);
    lemma_heard(*final(waiting), *token);
    packets::law_token_announces(token, token_len, address, 0, crc, silence);
    lemma_processed(token, token_len, silence);
    lemma_heard(*final(token), *data);
    assert(token.ep_out_states@[0].status == EndpointStatus::RxReady);
    assert(packets::same_endpoint(token.ep_out_states@[0], final(token).ep_out_states@[0]));
    packets::law_data_taken(data, data_len, payload, 0, false, answer);
    lemma_processed(data, data_len, answer);
    operations::law_poll_data_out(pipe, *final(data), buf, received);
    let endpoint = final(data).ep_out_states@[0];
    assert forall|i: int| 0 <= i < payload.len() implies #[trigger] final(buf)@[i] == payload[i] by {
        assert(endpoint.rx_buf@[i] == payload[i]);
    }
    assert(final(buf)@ =~= payload + old(buf)@.skip(payload.len() as int));
}

/// A control request. Whatever state the device is in, stalled or busy, a SETUP token for
/// endpoint 0, to any address and with any CRC, and a data packet of eight bytes are
/// acknowledged and wake the control pipe; it gets those eight bytes, and gets them once.
pub proof fn law_setup_delivers(
    pipe: PioControlPipe,
    token: &mut UsbIrqState,
    token_len: usize,
    address: int,
    crc: int,
    silence: Response,
    data: &mut UsbIrqState,
    request: Seq<u8>,
    answer: Response,
    taking: &mut UsbIrqState,
    packet: Poll<[u8; 8]>,
    again: &mut UsbIrqState,
    nothing: Poll<[u8; 8]>,
)
    requires
        token.wf(),
        4 <= token_len <= 128,
        packets::is_token(token.rx_dma_buf@, packets::SETUP, address, 0, crc),
        call_ensures(UsbIrqState::on_packet, (token, token_len), silence),
        heard(*final(token), *data),
        request.len() == 8,
        packets::is_data(data.rx_dma_buf@, request),
        call_ensures(UsbIrqState::on_packet, (data, 12usize), answer),
        *taking == *final(data),
        call_ensures(PioControlPipe::setup, (&pipe, taking), packet),
        *again == *final(taking),
        call_ensures(PioControlPipe::setup, (&pipe, again), nothing),
    ensures
        silence == (Response { wake: None, send: None }),
        answer == (Response { wake: Some(WakeTarget::Out(0)), send: Some(TxSource::Ack) }),
        (packet matches Poll::Ready(bytes) && bytes@ == request),
        nothing == Poll::<[u8; 8]>::Pending,
{
    packets::law_token_announces(token, token_len, address, 0, crc, silence);
    lemma_processed(token, token_len, silence);
    lemma_heard(*final(token), *data);
    packets::law_data_taken(data, 12, request, 0, true, answer);
    lemma_processed(data, 12, answer);
    operations::law_setup(pipe, taking, packet);
    operations::law_setup(pipe, again, nothing);
    let bytes = packet->Ready_0;
    assert forall|i: int| 0 <= i < 8 implies bytes@[i] == request[i] by {
        assert(data.ep_out_states@[0].rx_buf@.len() == 64);
        assert(final(data).ep_out_states@[0].rx_buf@[i] == request[i]);
    }
    assert(bytes@ =~= request);
}

/// What a task writes is what the host gets. Whatever state the endpoint was in, a write is
/// pending; the IN token for the endpoint, from any address and with any CRC, is answered with
/// a transmission that carries exactly the data; the write stays pending, and the same is sent
/// again for another token, until the host acknowledges; then the task is woken and the write
/// is complete.
pub proof fn law_write_delivers(
    ep: PioEndpointIn,
    writing: &mut UsbIrqState,
    buf: &[u8],
    early: Poll<Result<(), EndpointError>>,
    token: &mut UsbIrqState,
    token_len: usize,
    address: int,
    crc: int,
    answer: Response,
    bytes: &[u8],
    waiting: Poll<Result<(), EndpointError>>,
    retry: &mut UsbIrqState,
    retry_len: usize,
    retry_address: int,
    retry_crc: int,
    retry_answer: Response,
    retry_bytes: &[u8],
    ack: &mut UsbIrqState,
    ack_len: usize,
    woken: Response,
    done: Poll<Result<(), EndpointError>>,
)
    requires
        ep.wf(),
        writing.wf(),
        buf@.len() <= 66,
        call_ensures(PioEndpointIn::write, (&ep, writing, buf), ()),
        call_ensures(PioEndpointIn::poll_write, (&ep, &*final(writing)), early),
        heard(*final(writing), *token),
        4 <= token_len <= 128,
        packets::is_token(
            token.rx_dma_buf@,
            packets::IN,
            address,
            ep.info.addr.raw as int % 128,
            crc,
        ),
        call_ensures(UsbIrqState::on_packet, (token, token_len), answer),
        call_ensures(
            UsbIrqState::transmission,
            (&*final(token), TxSource::Endpoint((ep.info.addr.raw as int % 128) as u8)),
            bytes,
        ),
        call_ensures(PioEndpointIn::poll_write, (&ep, &*final(token)), waiting),
        heard(*final(token), *retry),
        4 <= retry_len <= 128,
        packets::is_token(
            retry.rx_dma_buf@,
            packets::IN,
            retry_address,
            ep.info.addr.raw as int % 128,
            retry_crc,
        ),
        call_ensures(UsbIrqState::on_packet, (retry, retry_len), retry_answer),
        call_ensures(
            UsbIrqState::transmission,
            (&*final(retry), TxSource::Endpoint((ep.info.addr.raw as int % 128) as u8)),
            retry_bytes,
        ),
        heard(*final(retry), *ack),
        2 <= ack_len <= 128,
        ack.rx_dma_buf@[1] == packets::ACK,
        call_ensures(UsbIrqState::on_packet, (ack, ack_len), woken),
        call_ensures(PioEndpointIn::poll_write, (&ep, &*final(ack)), done),
    ensures
        early == Poll::<Result<(), EndpointError>>::Pending,
        answer == (Response {
            wake: None,
            send: Some(TxSource::Endpoint((ep.info.addr.raw as int % 128) as u8)),
        }),
        phy::laws::carries(bytes@, buf@),
        phy::laws::decoded(bytes@) == buf@,
        waiting == Poll::<Result<(), EndpointError>>::Pending,
        retry_answer == answer,
        retry_bytes@ == bytes@,
        woken == (Response {
            wake: Some(WakeTarget::In((ep.info.addr.raw as int % 128) as u8)),
            send: None,
        }),
        done == Poll::<Result<(), EndpointError>>::Ready(Ok(())),
{
    let n = ep.info.addr.raw as int % 128;
    operations::law_write(ep, writing, buf);
    operations::law_poll_write(ep, *final(writing), early);
    lemma_heard(*final(writing), *token);
    packets::law_in_token_answered(token, token_len, address, n, crc, answer);
    lemma_processed(token, token_len, answer);
    packets::law_transmission(*final(token), TxSource::Endpoint(n as u8), bytes);
    operations::law_poll_write(ep, *final(token), waiting);
    assert(packets::same_endpoint(token.ep_in_states@[n], final(token).ep_in_states@[n]));
    lemma_heard(*final(token), *retry);
    packets::law_in_token_answered(retry, retry_len, retry_address, n, retry_crc, retry_answer);
    lemma_processed(retry, retry_len, retry_answer);
    packets::law_transmission(*final(retry), TxSource::Endpoint(n as u8), retry_bytes);
    assert(packets::same_endpoint(retry.ep_in_states@[n], final(retry).ep_in_states@[n]));
    lemma_heard(*final(retry), *ack);
    packets::law_ack_completes(ack, ack_len, n as u8, woken);
    phy::laws::law_carries_decodes(bytes@, buf@);
    operations::law_poll_write(ep, *final(ack), done);
}

/// Control data for the host. Whatever state the control pipe was in, behind `data_in` the IN
/// token for endpoint 0 is answered with a transmission that carries exactly the data, and
/// they count as sent as soon as the host acknowledges and no earlier.
pub proof fn law_data_in_delivers(
    pipe: PioControlPipe,
    writing: &mut UsbIrqState,
    data: &[u8],
    first: bool,
    last: bool,
    early: Poll<Result<(), EndpointError>>,
    token: &mut UsbIrqState,
    token_len: usize,
    address: int,
    crc: int,
    answer: Response,
    bytes: &[u8],
    waiting: Poll<Result<(), EndpointError>>,
    ack: &mut UsbIrqState,
    ack_len: usize,
    woken: Response,
    done: Poll<Result<(), EndpointError>>,
)
    requires
        writing.wf(),
        data@.len() <= 66,
        call_ensures(PioControlPipe::data_in, (&pipe, writing, data, first, last), ()),
        call_ensures(PioControlPipe::poll_data_in, (&pipe, &*final(writing)), early),
        heard(*final(writing), *token),
        4 <= token_len <= 128,
        packets::is_token(token.rx_dma_buf@, packets::IN, address, 0, crc),
        call_ensures(UsbIrqState::on_packet, (token, token_len), answer),
        call_ensures(
            UsbIrqState::transmission,
            (&*final(token), TxSource::Endpoint(0)),
            bytes,
        ),
        call_ensures(PioControlPipe::poll_data_in, (&pipe, &*final(token)), waiting),
        heard(*final(token), *ack),
        2 <= ack_len <= 128,
        ack.rx_dma_buf@[1] == packets::ACK,
        call_ensures(UsbIrqState::on_packet, (ack, ack_len), woken),
        call_ensures(PioControlPipe::poll_data_in, (&pipe, &*final(ack)), done),
    ensures
        early == Poll::<Result<(), EndpointError>>::Pending,
        answer == (Response { wake: None, send: Some(TxSource::Endpoint(0)) }),
        phy::laws::carries(bytes@, data@),
        waiting == Poll::<Result<(), EndpointError>>::Pending,
        woken == (Response { wake: Some(WakeTarget::In(0)), send: None }),
        done == Poll::<Result<(), EndpointError>>::Ready(Ok(())),
{
    operations::law_data_in(pipe, writing, data, first, last);
    operations::law_poll_data_in(pipe, *final(writing), early);
    lemma_heard(*final(writing), *token);
    packets::law_in_token_answered(token, token_len, address, 0, crc, answer);
    lemma_processed(token, token_len, answer);
    packets::law_transmission(*final(token), TxSource::Endpoint(0), bytes);
    operations::law_poll_data_in(pipe, *final(token), waiting);
    assert(packets::same_endpoint(token.ep_in_states@[0], final(token).ep_in_states@[0]));
    lemma_heard(*final(token), *ack);
    packets::law_ack_completes(ack, ack_len, 0, woken);
    operations::law_poll_data_in(pipe, *final(ack), done);
}

/// An accepted request is answered with an empty packet.
pub proof fn law_accept_answers(
    pipe: PioControlPipe,
    accepting: &mut UsbIrqState,
    token: &mut UsbIrqState,
    token_len: usize,
    address: int,
    crc: int,
    answer: Response,
    bytes: &[u8],
)
    requires
        accepting.wf(),
        call_ensures(PioControlPipe::accept, (&pipe, accepting), ()),
        heard(*final(accepting), *token),
        4 <= token_len <= 128,
        packets::is_token(token.rx_dma_buf@, packets::IN, address, 0, crc),
        call_ensures(UsbIrqState::on_packet, (token, token_len), answer),
        call_ensures(
            UsbIrqState::transmission,
            (&*final(token), TxSource::Endpoint(0)),
            bytes,
        ),
    ensures
        answer == (Response { wake: None, send: Some(TxSource::Endpoint(0)) }),
        phy::laws::carries(bytes@, Seq::<u8>::empty()),
{
    operations::law_accept(pipe, accepting);
    lemma_heard(*final(accepting), *token);
    packets::law_in_token_answered(token, token_len, address, 0, crc, answer);
    lemma_processed(token, token_len, answer);
    packets::law_transmission(*final(token), TxSource::Endpoint(0), bytes);
    assert(packets::same_endpoint(token.ep_in_states@[0], final(token).ep_in_states@[0]));
}

/// A rejected request is answered with STALL in both directions.
pub proof fn law_reject_answers(
    pipe: PioControlPipe,
    rejecting: &mut UsbIrqState,
    token: &mut UsbIrqState,
    token_len: usize,
    address: int,
    crc: int,
    answer: Response,
    out_token: &mut UsbIrqState,
    out_token_len: usize,
    out_address: int,
    out_crc: int,
    silence: Response,
    data: &mut UsbIrqState,
    data_len: usize,
    out_answer: Response,
)
    requires
        rejecting.wf(),
        call_ensures(PioControlPipe::reject, (&pipe, rejecting), ()),
        heard(*final(rejecting), *token),
        4 <= token_len <= 128,
        packets::is_token(token.rx_dma_buf@, packets::IN, address, 0, crc),
        call_ensures(UsbIrqState::on_packet, (token, token_len), answer),
        heard(*final(rejecting), *out_token),
        4 <= out_token_len <= 128,
        packets::is_token(out_token.rx_dma_buf@, packets::OUT, out_address, 0, out_crc),
        call_ensures(UsbIrqState::on_packet, (out_token, out_token_len), silence),
        heard(*final(out_token), *data),
        2 <= data_len <= 128,
        data.rx_dma_buf@[1] == packets::DATA0 || data.rx_dma_buf@[1] == packets::DATA1,
        call_ensures(UsbIrqState::on_packet, (data, data_len), out_answer),
    ensures
        answer == (Response { wake: None, send: Some(TxSource::Stall) }),
        out_answer == (Response { wake: None, send: Some(TxSource::Stall) }),
{
    operations::law_reject(pipe, rejecting);
    lemma_heard(*final(rejecting), *token);
    packets::law_in_token_answered(token, token_len, address, 0, crc, answer);
    lemma_heard(*final(rejecting), *out_token);
    packets::law_token_announces(out_token, out_token_len, out_address, 0, out_crc, silence);
    lemma_processed(out_token, out_token_len, silence);
    lemma_heard(*final(out_token), *data);
    assert(packets::same_endpoint(
        out_token.ep_out_states@[0],
        final(out_token).ep_out_states@[0],
    ));
    packets::law_data_refused(data, data_len, 0, out_answer);
}

/// What was stalled reads as stalled, and what was cleared does not; every other address
/// reads as before.
pub proof fn law_stall_shows(
    bus: PioUsbBus,
    state: &mut UsbIrqState,
    address: EndpointAddress,
    stalled: bool,
    reads: bool,
    other: EndpointAddress,
    other_before: bool,
    other_after: bool,
)
    requires
        state.wf(),
        address.raw % 128 < 16,
        other.raw % 128 < 16,
        other.raw != address.raw,
        call_ensures(PioUsbBus::endpoint_is_stalled, (&bus, &*state, other), other_before),
        call_ensures(PioUsbBus::endpoint_set_stalled, (&bus, state, address, stalled), ()),
        call_ensures(PioUsbBus::endpoint_is_stalled, (&bus, &*final(state), address), reads),
        call_ensures(PioUsbBus::endpoint_is_stalled, (&bus, &*final(state), other), other_after),
    ensures
        reads == stalled,
        other_after == other_before,
{
    operations::law_is_stalled(bus, *old(state), other, other_before);
    operations::law_set_stalled(bus, state, address, stalled);
    operations::law_is_stalled(bus, *final(state), address, reads);
    operations::law_is_stalled(bus, *final(state), other, other_after);
    let n = other.raw as int % 128;
    if other.raw >= 128 {
        assert(address.raw >= 128 ==> n != address.raw as int % 128);
        assert(packets::same_endpoint(old(state).ep_in_states@[n], final(state).ep_in_states@[n]));
    } else {
        assert(address.raw < 128 ==> n != address.raw as int % 128);
        assert(packets::same_endpoint(old(state).ep_out_states@[n], final(state).ep_out_states@[n]));
    }
}

/// A task that waits for its endpoint to be enabled finds it enabled or not as the bus has
/// last set it, and the bus has that task woken when it enables the endpoint.
pub proof fn law_enable_shows(
    bus: PioUsbBus,
    state: &mut UsbIrqState,
    ep_in: PioEndpointIn,
    ep_out: PioEndpointOut,
    address: EndpointAddress,
    enabled: bool,
    wake: Option<WakeTarget>,
    in_enabled: Poll<()>,
    out_enabled: Poll<()>,
)
    requires
        state.wf(),
        ep_in.wf(),
        ep_out.wf(),
        address.raw % 128 < 16,
        call_ensures(PioUsbBus::endpoint_set_enabled, (&bus, state, address, enabled), wake),
        call_ensures(PioEndpointIn::wait_enabled, (&ep_in, &*final(state)), in_enabled),
        call_ensures(PioEndpointOut::wait_enabled, (&ep_out, &*final(state)), out_enabled),
    ensures
        address.raw >= 128 && ep_in.info.addr.raw % 128 == address.raw % 128 ==> {
            &&& (in_enabled == Poll::Ready(())) == enabled
            &&& (wake == Some(WakeTarget::In(address.raw % 128))) == enabled
        },
        address.raw < 128 && ep_out.info.addr.raw % 128 == address.raw % 128 ==> {
            &&& (out_enabled == Poll::Ready(())) == enabled
            &&& (wake == Some(WakeTarget::Out(address.raw % 128))) == enabled
        },
        wake is None <==> !enabled,
{
    operations::law_set_enabled(bus, state, address, enabled, wake);
    operations::law_wait_enabled(ep_in, ep_out, *final(state), in_enabled, out_enabled);
}

/// A bus reset is told to whoever polls the bus next, once.
pub proof fn law_reset_polled(
    bus: PioUsbBus,
    reset: &mut UsbIrqState,
    polling: &mut UsbIrqState,
    event: Poll<Event>,
    again: &mut UsbIrqState,
    nothing: Poll<Event>,
)
    requires
        reset.wf(),
        call_ensures(UsbIrqState::bus_reset, (reset,), ()),
        *polling == *final(reset),
        call_ensures(PioUsbBus::poll, (&bus, polling), event),
        *again == *final(polling),
        call_ensures(PioUsbBus::poll, (&bus, again), nothing),
    ensures
        event == Poll::Ready(Event::Reset),
        nothing == Poll::<Event>::Pending,
{
    packets::law_bus_reset(reset);
    operations::law_poll(bus, polling, event);
    operations::law_poll(bus, again, nothing);
}

} // verus!
