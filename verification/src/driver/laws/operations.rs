//! What each call of a task does to the shared state, and what it tells the task.
//!
//! As with packets, the laws speak of the fields before and after a call and of what the call
//! returns, whatever state the call finds.
use vstd::prelude::*;
use crate::driver::address::EndpointAddress;
use crate::driver::bus::PioUsbBus;
use crate::driver::control::PioControlPipe;
use crate::driver::endpoint::{
    EndpointError, EndpointInfo, EndpointState, EndpointStatus, PioEndpointIn, PioEndpointOut, Poll,
};
use crate::driver::irq::{Event, UsbIrqState, WakeTarget};
use crate::driver::laws::packets;
use crate::phy;

verus! {

/// The endpoint has the packet `data`, and nothing else, ready to be sent; what it has
/// received, and whether it is enabled, is as it was.
pub open spec fn loaded(before: EndpointState, after: EndpointState, data: Seq<u8>) -> bool {
    &&& after.status == EndpointStatus::TxReady
    &&& after.tx_encoded_len <= 156
    &&& phy::laws::carries(after.tx_encoded_buf@.take(after.tx_encoded_len as int), data)
    &&& forall|i: int|
        after.tx_encoded_len <= i < 156 ==> #[trigger] after.tx_encoded_buf@[i]
            == before.tx_encoded_buf@[i]
    &&& after.rx_buf@ == before.rx_buf@
    &&& after.rx_len == before.rx_len
    &&& after.enabled == before.enabled
}

/// `received` and `after` are what a task gets that looks for a payload: nothing but on an
/// idle endpoint, and there the whole payload, at the start of a buffer that is otherwise
/// left alone.
pub open spec fn hands_out(
    endpoint: EndpointState,
    before: Seq<u8>,
    after: Seq<u8>,
    received: Poll<Result<usize, EndpointError>>,
) -> bool {
    if endpoint.status == EndpointStatus::Idle {
        &&& received == Poll::<Result<usize, EndpointError>>::Ready(Ok(endpoint.rx_len))
        &&& after.len() == before.len()
        &&& forall|i: int| 0 <= i < endpoint.rx_len ==> #[trigger] after[i] == endpoint.rx_buf@[i]
        &&& forall|i: int| endpoint.rx_len <= i < before.len() ==> #[trigger] after[i] == before[i]
    } else {
        &&& received == Poll::<Result<usize, EndpointError>>::Pending
        &&& after == before
    }
}

/// A new endpoint is disabled, idle and empty.
pub proof fn law_new_endpoint(state: EndpointState)
    requires
        call_ensures(EndpointState::new, (), state),
    ensures
        !state.enabled,
        state.status == EndpointStatus::Idle,
        state.rx_len == 0,
        state.tx_encoded_len == 0,
        forall|i: int| 0 <= i < 64 ==> #[trigger] state.rx_buf@[i] == 0,
        forall|i: int| 0 <= i < 156 ==> #[trigger] state.tx_encoded_buf@[i] == 0,
{
}

/// An endpoint takes in the payload that stands behind SYNC and PID.
pub proof fn law_receive(
    state: &mut EndpointState,
    packet: &[u8; 128],
    payload_len: usize,
    is_setup: bool,
)
    requires
        state.wf(),
        payload_len <= 64,
        call_ensures(EndpointState::receive, (state, packet, payload_len, is_setup), ()),
    ensures
        final(state).rx_len == payload_len,
        forall|i: int| 0 <= i < payload_len ==> #[trigger] final(state).rx_buf@[i] == packet@[2 + i],
        forall|i: int|
            payload_len <= i < 64 ==> #[trigger] final(state).rx_buf@[i] == old(state).rx_buf@[i],
        final(state).status == if is_setup {
            EndpointStatus::SetupReceived
        } else {
            EndpointStatus::Idle
        },
        final(state).enabled == old(state).enabled,
        final(state).tx_encoded_buf@ == old(state).tx_encoded_buf@,
        final(state).tx_encoded_len == old(state).tx_encoded_len,
{
}

/// An endpoint that sends has exactly the packet loaded.
pub proof fn law_send(state: &mut EndpointState, buf: &[u8])
    requires
        state.wf(),
        buf@.len() <= 66,
        call_ensures(EndpointState::send, (state, buf), ()),
    ensures
        loaded(*old(state), *final(state), buf@),
{
    phy::laws::law_encoded_len(buf@);
    phy::laws::law_encoded_carries(buf@);
    assert(final(state).tx_encoded_buf@.take(final(state).tx_encoded_len as int)
        =~= phy::encoded(buf@));
}

/// A payload is handed out by an idle endpoint only, whole and unchanged.
pub proof fn law_take_payload(
    state: EndpointState,
    buf: &mut [u8],
    received: Poll<Result<usize, EndpointError>>,
)
    requires
        state.wf(),
        state.rx_len <= buf@.len(),
        call_ensures(EndpointState::take_payload, (&state, buf), received),
    ensures
        hands_out(state, old(buf)@, final(buf)@, received),
{
}

/// A packet has been sent exactly when its endpoint is idle.
pub proof fn law_sent(state: EndpointState, done: Poll<Result<(), EndpointError>>)
    requires
        call_ensures(EndpointState::sent, (&state,), done),
    ensures
        done == if state.status == EndpointStatus::Idle {
            Poll::Ready(Ok(()))
        } else {
            Poll::<Result<(), EndpointError>>::Pending
        },
{
}

/// An endpoint tells whether it is enabled.
pub proof fn law_is_enabled(state: EndpointState, enabled: Poll<()>)
    requires
        call_ensures(EndpointState::is_enabled, (&state,), enabled),
    ensures
        (enabled == Poll::Ready(())) == state.enabled,
        (enabled == Poll::<()>::Pending) == !state.enabled,
{
}

/// An endpoint knows what it was made with, and its number is its address without the
/// highest bit.
pub proof fn law_endpoint_info(
    ep_in: PioEndpointIn,
    ep_out: PioEndpointOut,
    info_in: &EndpointInfo,
    info_out: &EndpointInfo,
)
    requires
        call_ensures(PioEndpointIn::info, (&ep_in,), info_in),
        call_ensures(PioEndpointOut::info, (&ep_out,), info_out),
    ensures
        *info_in == ep_in.info,
        *info_out == ep_out.info,
        ep_in.number() == ep_in.info.addr.raw % 128,
        ep_out.number() == ep_out.info.addr.raw % 128,
        ep_in.wf() <==> ep_in.info.addr.raw % 128 < 16,
        ep_out.wf() <==> ep_out.info.addr.raw % 128 < 16,
{
}

/// Whatever state it is in, an endpoint that is read waits for a packet, with nothing
/// received yet. Nothing else changes.
pub proof fn law_read(ep: PioEndpointOut, state: &mut UsbIrqState)
    requires
        ep.wf(),
        state.wf(),
        call_ensures(PioEndpointOut::read, (&ep, state), ()),
    ensures
        ({
            let n = ep.info.addr.raw as int % 128;
            let before = old(state).ep_out_states@[n];
            let after = final(state).ep_out_states@[n];
            &&& after.status == EndpointStatus::RxReady
            &&& after.rx_len == 0
            &&& after.rx_buf@ == before.rx_buf@
            &&& after.tx_encoded_buf@ == before.tx_encoded_buf@
            &&& after.tx_encoded_len == before.tx_encoded_len
            &&& after.enabled == before.enabled
            &&& packets::only_out(*old(state), *final(state), n)
        }),
        final(state).wf(),
{
    let n = ep.number();
    assert(old(state)@.ep_out[n] == old(state).ep_out_states@[n]@);
    assert(final(state)@.ep_out[n] == final(state).ep_out_states@[n]@);
    packets::lemma_same_in(*old(state), *final(state), -1);
    packets::lemma_same_out(*old(state), *final(state), n);
}

/// A read is pending until its endpoint is idle, and then gives the payload.
pub proof fn law_poll_read(
    ep: PioEndpointOut,
    state: UsbIrqState,
    buf: &mut [u8],
    received: Poll<Result<usize, EndpointError>>,
)
    requires
        ep.wf(),
        state.wf(),
        state.ep_out_states@[ep.info.addr.raw as int % 128].rx_len <= buf@.len(),
        call_ensures(PioEndpointOut::poll_read, (&ep, &state, buf), received),
    ensures
        hands_out(
            state.ep_out_states@[ep.info.addr.raw as int % 128],
            old(buf)@,
            final(buf)@,
            received,
        ),
{
    let n = ep.number();
    assert(state@.ep_out[n] == state.ep_out_states@[n]@);
    assert(state@.ep_out[n].wf());
}

/// Whatever state it is in, an endpoint that is written to has exactly the packet loaded.
/// Nothing else changes.
pub proof fn law_write(ep: PioEndpointIn, state: &mut UsbIrqState, buf: &[u8])
    requires
        ep.wf(),
        state.wf(),
        buf@.len() <= 66,
        call_ensures(PioEndpointIn::write, (&ep, state, buf), ()),
    ensures
        ({
            let n = ep.info.addr.raw as int % 128;
            &&& loaded(old(state).ep_in_states@[n], final(state).ep_in_states@[n], buf@)
            &&& packets::only_in(*old(state), *final(state), n)
        }),
        final(state).wf(),
{
    lemma_loaded(*old(state), *final(state), ep.number(), buf@);
}

/// An IN endpoint that was given a packet has it loaded, and no other is touched.
proof fn lemma_loaded(before: UsbIrqState, after: UsbIrqState, n: int, data: Seq<u8>)
    requires
        0 <= n < 16,
        before.wf(),
        data.len() <= 66,
        after@ == before@.with_in(n, before@.ep_in[n].sending(data)),
    ensures
        loaded(before.ep_in_states@[n], after.ep_in_states@[n], data),
        packets::only_in(before, after, n),
{
    assert(before@.ep_in[n] == before.ep_in_states@[n]@);
    assert(before@.ep_in[n].wf());
    assert(after@.ep_in[n] == after.ep_in_states@[n]@);
    phy::laws::law_encoded_len(data);
    phy::laws::law_encoded_carries(data);
    let endpoint = after.ep_in_states@[n];
    assert(endpoint.tx_encoded_buf@.take(endpoint.tx_encoded_len as int) =~= phy::encoded(data));
    packets::lemma_same_in(before, after, n);
    packets::lemma_same_out(before, after, -1);
}

/// A write is complete exactly when its endpoint is idle.
pub proof fn law_poll_write(
    ep: PioEndpointIn,
    state: UsbIrqState,
    done: Poll<Result<(), EndpointError>>,
)
    requires
        ep.wf(),
        call_ensures(PioEndpointIn::poll_write, (&ep, &state), done),
    ensures
        done == if state.ep_in_states@[ep.info.addr.raw as int % 128].status
            == EndpointStatus::Idle {
            Poll::Ready(Ok(()))
        } else {
            Poll::<Result<(), EndpointError>>::Pending
        },
{
}

/// A task that waits for its endpoint to be enabled looks at the endpoint of its own number
/// and direction.
pub proof fn law_wait_enabled(
    ep_in: PioEndpointIn,
    ep_out: PioEndpointOut,
    state: UsbIrqState,
    in_enabled: Poll<()>,
    out_enabled: Poll<()>,
)
    requires
        ep_in.wf(),
        ep_out.wf(),
        call_ensures(PioEndpointIn::wait_enabled, (&ep_in, &state), in_enabled),
        call_ensures(PioEndpointOut::wait_enabled, (&ep_out, &state), out_enabled),
    ensures
        in_enabled == if state.ep_in_states@[ep_in.info.addr.raw as int % 128].enabled {
            Poll::Ready(())
        } else {
            Poll::<()>::Pending
        },
        out_enabled == if state.ep_out_states@[ep_out.info.addr.raw as int % 128].enabled {
            Poll::Ready(())
        } else {
            Poll::<()>::Pending
        },
{
}

/// The control pipe takes a SETUP packet exactly when one has arrived: it gets the first
/// eight bytes that were received, and the endpoint is idle behind it, so that no packet is
/// taken twice.
pub proof fn law_setup(pipe: PioControlPipe, state: &mut UsbIrqState, packet: Poll<[u8; 8]>)
    requires
        state.wf(),
        call_ensures(PioControlPipe::setup, (&pipe, state), packet),
    ensures
        old(state).ep_out_states@[0].status == EndpointStatus::SetupReceived ==> {
            &&& (packet matches Poll::Ready(bytes) && forall|i: int|
                0 <= i < 8 ==> #[trigger] bytes@[i] == old(state).ep_out_states@[0].rx_buf@[i])
            &&& final(state).ep_out_states@[0].status == EndpointStatus::Idle
            &&& packets::same_but_status(
                old(state).ep_out_states@[0],
                final(state).ep_out_states@[0],
            )
            &&& packets::only_out(*old(state), *final(state), 0)
        },
        old(state).ep_out_states@[0].status != EndpointStatus::SetupReceived ==> {
            &&& packet == Poll::<[u8; 8]>::Pending
            &&& packets::same_state(*old(state), *final(state))
        },
        final(state).wf(),
{
    assert(old(state)@.ep_out[0] == old(state).ep_out_states@[0]@);
    assert(final(state)@.ep_out[0] == final(state).ep_out_states@[0]@);
    packets::lemma_same_in(*old(state), *final(state), -1);
    packets::lemma_same_out(*old(state), *final(state), 0);
    if old(state).ep_out_states@[0].status == EndpointStatus::SetupReceived {
        assert(packet is Ready);
        let bytes = packet->Ready_0;
        assert forall|i: int| 0 <= i < 8 implies #[trigger] bytes@[i] == old(state).ep_out_states@[0].rx_buf@[i] by {
            assert(bytes@[i] == old(state)@.ep_out[0].rx.take(8)[i]);
        }
    } else {
        packets::lemma_same_out(*old(state), *final(state), -1);
    }
}

/// Whatever state the control pipe is in, it waits for data behind `data_out`. Nothing else
/// changes.
pub proof fn law_data_out(pipe: PioControlPipe, state: &mut UsbIrqState, first: bool, last: bool)
    requires
        state.wf(),
        call_ensures(PioControlPipe::data_out, (&pipe, state, first, last), ()),
    ensures
        final(state).ep_out_states@[0].status == EndpointStatus::RxReady,
        packets::same_but_status(old(state).ep_out_states@[0], final(state).ep_out_states@[0]),
        packets::only_out(*old(state), *final(state), 0),
        final(state).wf(),
{
    assert(old(state)@.ep_out[0] == old(state).ep_out_states@[0]@);
    assert(final(state)@.ep_out[0] == final(state).ep_out_states@[0]@);
    packets::lemma_same_in(*old(state), *final(state), -1);
    packets::lemma_same_out(*old(state), *final(state), 0);
}

/// Control data are pending until the pipe's OUT endpoint is idle, and then are its payload.
pub proof fn law_poll_data_out(
    pipe: PioControlPipe,
    state: UsbIrqState,
    buf: &mut [u8],
    received: Poll<Result<usize, EndpointError>>,
)
    requires
        state.wf(),
        state.ep_out_states@[0].rx_len <= buf@.len(),
        call_ensures(PioControlPipe::poll_data_out, (&pipe, &state, buf), received),
    ensures
        hands_out(state.ep_out_states@[0], old(buf)@, final(buf)@, received),
{
    assert(state@.ep_out[0] == state.ep_out_states@[0]@);
    assert(state@.ep_out[0].wf());
}

/// Whatever state the control pipe is in, behind `data_in` it has exactly the data loaded.
/// Nothing else changes.
pub proof fn law_data_in(
    pipe: PioControlPipe,
    state: &mut UsbIrqState,
    data: &[u8],
    first: bool,
    last: bool,
)
    requires
        state.wf(),
        data@.len() <= 66,
        call_ensures(PioControlPipe::data_in, (&pipe, state, data, first, last), ()),
    ensures
        loaded(old(state).ep_in_states@[0], final(state).ep_in_states@[0], data@),
        packets::only_in(*old(state), *final(state), 0),
        final(state).wf(),
{
    lemma_loaded(*old(state), *final(state), 0, data@);
}

/// Control data have been sent exactly when the pipe's IN endpoint is idle.
pub proof fn law_poll_data_in(
    pipe: PioControlPipe,
    state: UsbIrqState,
    done: Poll<Result<(), EndpointError>>,
)
    requires
        call_ensures(PioControlPipe::poll_data_in, (&pipe, &state), done),
    ensures
        done == if state.ep_in_states@[0].status == EndpointStatus::Idle {
            Poll::Ready(Ok(()))
        } else {
            Poll::<Result<(), EndpointError>>::Pending
        },
{
}

/// To accept a request is to send an empty packet.
pub proof fn law_accept(pipe: PioControlPipe, state: &mut UsbIrqState)
    requires
        state.wf(),
        call_ensures(PioControlPipe::accept, (&pipe, state), ()),
    ensures
        loaded(
            old(state).ep_in_states@[0],
            final(state).ep_in_states@[0],
            Seq::<u8>::empty(),
        ),
        packets::only_in(*old(state), *final(state), 0),
        final(state).wf(),
{
    lemma_loaded(*old(state), *final(state), 0, Seq::<u8>::empty());
}

/// To reject a request is to stall endpoint 0 in both directions, and nothing else.
pub proof fn law_reject(pipe: PioControlPipe, state: &mut UsbIrqState)
    requires
        state.wf(),
        call_ensures(PioControlPipe::reject, (&pipe, state), ()),
    ensures
        final(state).ep_in_states@[0].status == EndpointStatus::Stalled,
        final(state).ep_out_states@[0].status == EndpointStatus::Stalled,
        packets::same_but_status(old(state).ep_in_states@[0], final(state).ep_in_states@[0]),
        packets::same_but_status(old(state).ep_out_states@[0], final(state).ep_out_states@[0]),
        packets::same_in_but(*old(state), *final(state), 0),
        packets::same_out_but(*old(state), *final(state), 0),
        packets::same_setup(*old(state), *final(state)),
        packets::same_progress(*old(state), *final(state)),
        final(state).wf(),
{
    assert(old(state)@.ep_in[0] == old(state).ep_in_states@[0]@);
    assert(final(state)@.ep_in[0] == final(state).ep_in_states@[0]@);
    assert(old(state)@.ep_out[0] == old(state).ep_out_states@[0]@);
    assert(final(state)@.ep_out[0] == final(state).ep_out_states@[0]@);
    packets::lemma_same_in(*old(state), *final(state), 0);
    packets::lemma_same_out(*old(state), *final(state), 0);
}

/// A device address changes nothing.
pub proof fn law_accept_set_address(pipe: PioControlPipe, state: &mut UsbIrqState, addr: u8)
    requires
        call_ensures(PioControlPipe::accept_set_address, (&pipe, state, addr), ()),
    ensures
        packets::same_state(*old(state), *final(state)),
{
    packets::lemma_same_in(*old(state), *final(state), -1);
    packets::lemma_same_out(*old(state), *final(state), -1);
}

/// An event is told once: whoever polls takes it away.
pub proof fn law_poll(bus: PioUsbBus, state: &mut UsbIrqState, event: Poll<Event>)
    requires
        state.wf(),
        call_ensures(PioUsbBus::poll, (&bus, state), event),
    ensures
        event == match old(state).bus_event {
            Some(event) => Poll::Ready(event),
            None => Poll::Pending,
        },
        final(state).bus_event is None,
        final(state).expect_data == old(state).expect_data,
        final(state).last_tx_ep == old(state).last_tx_ep,
        packets::same_in_but(*old(state), *final(state), -1),
        packets::same_out_but(*old(state), *final(state), -1),
        packets::same_setup(*old(state), *final(state)),
        final(state).wf(),
{
    packets::lemma_same_in(*old(state), *final(state), -1);
    packets::lemma_same_out(*old(state), *final(state), -1);
}

/// Stalling makes one endpoint stalled, clearing makes it idle: the IN endpoint of that number
/// where the address has its highest bit set, and else the OUT endpoint. Nothing else changes.
pub proof fn law_set_stalled(
    bus: PioUsbBus,
    state: &mut UsbIrqState,
    ep_addr: EndpointAddress,
    stalled: bool,
)
    requires
        state.wf(),
        ep_addr.raw % 128 < 16,
        call_ensures(PioUsbBus::endpoint_set_stalled, (&bus, state, ep_addr, stalled), ()),
    ensures
        ({
            let n = ep_addr.raw as int % 128;
            let status = if stalled {
                EndpointStatus::Stalled
            } else {
                EndpointStatus::Idle
            };
            if ep_addr.raw >= 128 {
                let after = final(state).ep_in_states@[n];
                &&& after.status == status
                &&& packets::same_but_status(old(state).ep_in_states@[n], after)
                &&& packets::only_in(*old(state), *final(state), n)
            } else {
                let after = final(state).ep_out_states@[n];
                &&& after.status == status
                &&& packets::same_but_status(old(state).ep_out_states@[n], after)
                &&& packets::only_out(*old(state), *final(state), n)
            }
        }),
        final(state).wf(),
{
    let n = ep_addr.raw as int % 128;
    assert(old(state)@.ep_in[n] == old(state).ep_in_states@[n]@);
    assert(final(state)@.ep_in[n] == final(state).ep_in_states@[n]@);
    assert(old(state)@.ep_out[n] == old(state).ep_out_states@[n]@);
    assert(final(state)@.ep_out[n] == final(state).ep_out_states@[n]@);
    packets::lemma_same_in(*old(state), *final(state), if ep_addr.raw >= 128 { n } else { -1 });
    packets::lemma_same_out(*old(state), *final(state), if ep_addr.raw >= 128 { -1 } else { n });
}

/// An endpoint counts as stalled exactly when the endpoint of that number and direction is.
pub proof fn law_is_stalled(
    bus: PioUsbBus,
    state: UsbIrqState,
    ep_addr: EndpointAddress,
    stalled: bool,
)
    requires
        ep_addr.raw % 128 < 16,
        call_ensures(PioUsbBus::endpoint_is_stalled, (&bus, &state, ep_addr), stalled),
    ensures
        stalled == (EndpointStatus::Stalled == if ep_addr.raw >= 128 {
            state.ep_in_states@[ep_addr.raw as int % 128].status
        } else {
            state.ep_out_states@[ep_addr.raw as int % 128].status
        }),
{
}

/// Both hold the same but for being enabled.
pub open spec fn same_but_enabled(a: EndpointState, b: EndpointState) -> bool {
    &&& a.rx_buf@ == b.rx_buf@
    &&& a.rx_len == b.rx_len
    &&& a.tx_encoded_buf@ == b.tx_encoded_buf@
    &&& a.tx_encoded_len == b.tx_encoded_len
    &&& a.status == b.status
}

/// Enabling or disabling shows at one endpoint, the one of that number and direction, and
/// changes nothing else there. The task that waits for it is woken exactly when it is enabled.
pub proof fn law_set_enabled(
    bus: PioUsbBus,
    state: &mut UsbIrqState,
    ep_addr: EndpointAddress,
    enabled: bool,
    wake: Option<WakeTarget>,
)
    requires
        state.wf(),
        ep_addr.raw % 128 < 16,
        call_ensures(PioUsbBus::endpoint_set_enabled, (&bus, state, ep_addr, enabled), wake),
    ensures
        ({
            let n = ep_addr.raw as int % 128;
            if ep_addr.raw >= 128 {
                let after = final(state).ep_in_states@[n];
                &&& after.enabled == enabled
                &&& same_but_enabled(old(state).ep_in_states@[n], after)
                &&& packets::only_in(*old(state), *final(state), n)
                &&& wake == if enabled {
                    Some(WakeTarget::In(n as u8))
                } else {
                    None
                }
            } else {
                let after = final(state).ep_out_states@[n];
                &&& after.enabled == enabled
                &&& same_but_enabled(old(state).ep_out_states@[n], after)
                &&& packets::only_out(*old(state), *final(state), n)
                &&& wake == if enabled {
                    Some(WakeTarget::Out(n as u8))
                } else {
                    None
                }
            }
        }),
        final(state).wf(),
{
    let n = ep_addr.raw as int % 128;
    assert(old(state)@.ep_in[n] == old(state).ep_in_states@[n]@);
    assert(final(state)@.ep_in[n] == final(state).ep_in_states@[n]@);
    assert(old(state)@.ep_out[n] == old(state).ep_out_states@[n]@);
    assert(final(state)@.ep_out[n] == final(state).ep_out_states@[n]@);
    packets::lemma_same_in(*old(state), *final(state), if ep_addr.raw >= 128 { n } else { -1 });
    packets::lemma_same_out(*old(state), *final(state), if ep_addr.raw >= 128 { -1 } else { n });
}

} // verus!
