//! The control pipe: endpoint 0 in both directions.
use vstd::prelude::*;
use crate::driver::endpoint::{EndpointError, EndpointStatus, Poll, MAX_PACKET_LEN};
use crate::driver::irq::UsbIrqState;

verus! {

/// The control pipe.
pub struct PioControlPipe;

impl PioControlPipe {
    /// The largest packet on the control pipe.
    pub fn max_packet_size(&self) -> (size: usize)
        ensures
            size == 64,
    {
        64
    }

    /// Takes the SETUP packet that has arrived: its eight bytes, after which the endpoint is
    /// idle.
    pub fn setup(&self, state: &mut UsbIrqState) -> (packet: Poll<[u8; 8]>)
        requires
            old(state).wf(),
        ensures
            final(state).wf(),
            old(state)@.ep_out[0].status != EndpointStatus::SetupReceived ==> packet == Poll::<
                [u8; 8],
            >::Pending && final(state)@ == old(state)@,
            old(state)@.ep_out[0].status == EndpointStatus::SetupReceived ==> {
                &&& packet matches Poll::Ready(bytes) && bytes@ == old(state)@.ep_out[0].rx.take(8)
                &&& final(state)@ == old(state)@.with_out(
                    0,
                    old(state)@.ep_out[0].with_status(EndpointStatus::Idle),
                )
            },
    {
        if state.ep_out_states[0].status == EndpointStatus::SetupReceived {
            let mut setup_data: [u8; 8] = [0; 8];
            let mut i: usize = 0;
            while i < 8
                invariant
                    i <= 8,
                    forall|j: int|
                        0 <= j < i ==> #[trigger] setup_data@[j] == state.ep_out_states@[0].rx_buf@[j],
                    *state == *old(state),
                decreases 8 - i,
            {
                setup_data[i] = state.ep_out_states[0].rx_buf[i];
                i = i + 1;
            }
            state.ep_out_states[0].status = EndpointStatus::Idle;
            assert(setup_data@ =~= old(state)@.ep_out[0].rx.take(8));
            assert(state@ =~= old(state)@.with_out(
                0,
                old(state)@.ep_out[0].with_status(EndpointStatus::Idle),
            ));
            Poll::Ready(setup_data)
        } else {
            Poll::Pending
        }
    }

    /// Begins to wait for data from the host; `poll_data_out` hands them out.
    pub fn data_out(&self, state: &mut UsbIrqState, _first: bool, _last: bool)
        requires
            old(state).wf(),
        ensures
            final(state).wf(),
            final(state)@ == old(state)@.with_out(
                0,
                old(state)@.ep_out[0].with_status(EndpointStatus::RxReady),
            ),
    {
        state.ep_out_states[0].status = EndpointStatus::RxReady;
        assert(state@ =~= old(state)@.with_out(
            0,
            old(state)@.ep_out[0].with_status(EndpointStatus::RxReady),
        ));
    }

    /// Hands out the data that `data_out` began to wait for.
    pub fn poll_data_out(&self, state: &UsbIrqState, buf: &mut [u8]) -> (received: Poll<
        Result<usize, EndpointError>,
    >)
        requires
            state.wf(),
            state@.ep_out[0].status == EndpointStatus::Idle ==> state@.ep_out[0].rx_len <= old(
                buf,
            )@.len(),
        ensures
            state@.ep_out[0].status != EndpointStatus::Idle ==> received == Poll::<
                Result<usize, EndpointError>,
            >::Pending && final(buf)@ == old(buf)@,
            state@.ep_out[0].status == EndpointStatus::Idle ==> {
                let payload = state@.ep_out[0].payload();
                &&& received matches Poll::Ready(Ok(len)) && len == payload.len()
                &&& final(buf)@ == payload + old(buf)@.skip(payload.len() as int)
            },
    {
        state.ep_out_states[0].take_payload(buf)
    }

    /// Begins to send `data` to the host; `poll_data_in` tells when they have arrived.
    pub fn data_in(&self, state: &mut UsbIrqState, data: &[u8], _first: bool, _last: bool)
        requires
            old(state).wf(),
            data@.len() <= MAX_PACKET_LEN,
        ensures
            final(state).wf(),
            final(state)@ == old(state)@.with_in(0, old(state)@.ep_in[0].sending(data@)),
    {
        state.ep_in_states[0].send(data);
        assert(state@ =~= old(state)@.with_in(0, old(state)@.ep_in[0].sending(data@)));
    }

    /// Whether the data that `data_in` began to send have been acknowledged.
    pub fn poll_data_in(&self, state: &UsbIrqState) -> (done: Poll<Result<(), EndpointError>>)
        ensures
            done == if state@.ep_in[0].status == EndpointStatus::Idle {
                Poll::Ready(Ok(()))
            } else {
                Poll::<Result<(), EndpointError>>::Pending
            },
    {
        state.ep_in_states[0].sent()
    }

    /// Accepts a request: begins to send an empty packet, of which `poll_data_in` tells when
    /// it has arrived.
    pub fn accept(&self, state: &mut UsbIrqState)
        requires
            old(state).wf(),
        ensures
            final(state).wf(),
            final(state)@ == old(state)@.with_in(
                0,
                old(state)@.ep_in[0].sending(Seq::<u8>::empty()),
            ),
    {
        let nothing: [u8; 0] = [];
        proof {
            assert(nothing@ =~= Seq::<u8>::empty());
        }
        self.data_in(state, &nothing, false, true);
    }

    /// Rejects a request: both directions answer STALL.
    pub fn reject(&self, state: &mut UsbIrqState)
        requires
            old(state).wf(),
        ensures
            final(state).wf(),
            final(state)@ == old(state)@.with_in(
                0,
                old(state)@.ep_in[0].with_status(EndpointStatus::Stalled),
            ).with_out(0, old(state)@.ep_out[0].with_status(EndpointStatus::Stalled)),
    {
        state.ep_in_states[0].status = EndpointStatus::Stalled;
        state.ep_out_states[0].status = EndpointStatus::Stalled;
        assert(state@ =~= old(state)@.with_in(
            0,
            old(state)@.ep_in[0].with_status(EndpointStatus::Stalled),
        ).with_out(0, old(state)@.ep_out[0].with_status(EndpointStatus::Stalled)));
    }

    /// Accepts a device address. Packets are not filtered by address, so nothing changes.
    pub fn accept_set_address(&self, state: &mut UsbIrqState, _addr: u8)
        ensures
            final(state)@ == old(state)@,
    {
    }
}

} // verus!
