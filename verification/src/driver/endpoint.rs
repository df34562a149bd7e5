//! Endpoints: what is kept for each of them, and the two kinds that the stack holds.
use vstd::prelude::*;
use crate::driver::address::EndpointAddress;
use crate::driver::irq::UsbIrqState;
use crate::phy;

verus! {

/// What an endpoint does when the host addresses it.
#[derive(Copy, Clone, PartialEq, Eq, Structural, Debug)]
pub enum EndpointStatus {
    /// Will respond with NAK.
    Idle,
    /// A task waits for data: will receive and acknowledge.
    RxReady,
    /// A task has prepared data: will transmit.
    TxReady,
    /// Will respond with STALL.
    Stalled,
    /// A SETUP packet has arrived and has not been taken yet.
    SetupReceived,
}

/// The outcome of looking for something that a task waits for. Where it is still pending,
/// the task has to be woken and look again.
#[derive(PartialEq, Eq, Debug)]
pub enum Poll<T> {
    /// It is there.
    Ready(T),
    /// It is not there yet.
    Pending,
}

/// Errors that a transfer can end with.
#[derive(Copy, Clone, PartialEq, Eq, Structural, Debug)]
pub enum EndpointError {
    /// The packet is too long for the buffer.
    BufferOverflow,
    /// The endpoint is disabled.
    Disabled,
}

/// Transfer type of an endpoint.
#[derive(Copy, Clone, PartialEq, Eq, Structural, Debug)]
pub enum EndpointType {
    Control,
    Isochronous,
    Bulk,
    Interrupt,
}

/// What the stack knows of an endpoint.
#[derive(Copy, Clone, PartialEq, Eq, Structural, Debug)]
pub struct EndpointInfo {
    pub addr: EndpointAddress,
    pub ep_type: EndpointType,
    /// Maximum packet size, in bytes.
    pub max_packet_size: u16,
    /// Polling interval, in milliseconds.
    pub interval_ms: u8,
}

/// Size of an endpoint's receive buffer, which is the largest payload of a packet.
pub const RX_BUF_LEN: usize = 64;

/// The largest packet that an endpoint sends: 64 bytes of payload and two of CRC.
pub const MAX_PACKET_LEN: usize = 66;

/// Size of an endpoint's buffer for encoded packets, which holds the largest packet with the
/// most bit stuffing: `66 * 2 * 7 / 6 + 2` bytes.
pub const TX_BUF_LEN: usize = 156;

/// What is kept for one endpoint.
#[derive(Copy, Clone)]
pub struct EndpointState {
    /// For OUT endpoints: the payload of the last packet.
    pub rx_buf: [u8; 64],
    pub rx_len: usize,
    /// For IN endpoints: the encoded packet that is to be sent.
    pub tx_encoded_buf: [u8; 156],
    pub tx_encoded_len: usize,
    pub status: EndpointStatus,
    pub enabled: bool,
}

/// The contents of an endpoint's state.
#[verifier::ext_equal]
pub struct EndpointModel {
    pub rx: Seq<u8>,
    pub rx_len: nat,
    pub tx: Seq<u8>,
    pub tx_len: nat,
    pub status: EndpointStatus,
    pub enabled: bool,
}

impl View for EndpointState {
    type V = EndpointModel;

    open spec fn view(&self) -> EndpointModel {
        EndpointModel {
            rx: self.rx_buf@,
            rx_len: self.rx_len as nat,
            tx: self.tx_encoded_buf@,
            tx_len: self.tx_encoded_len as nat,
            status: self.status,
            enabled: self.enabled,
        }
    }
}

impl EndpointModel {
    /// The buffers have their sizes and hold what the lengths say.
    pub open spec fn wf(self) -> bool {
        &&& self.rx.len() == RX_BUF_LEN
        &&& self.rx_len <= RX_BUF_LEN
        &&& self.tx.len() == TX_BUF_LEN
        &&& self.tx_len <= TX_BUF_LEN
    }

    /// An endpoint before any traffic.
    pub open spec fn initial() -> EndpointModel {
        EndpointModel {
            rx: Seq::new(RX_BUF_LEN as nat, |i: int| 0u8),
            rx_len: 0,
            tx: Seq::new(TX_BUF_LEN as nat, |i: int| 0u8),
            tx_len: 0,
            status: EndpointStatus::Idle,
            enabled: false,
        }
    }

    /// The payload of the last packet.
    pub open spec fn payload(self) -> Seq<u8> {
        self.rx.take(self.rx_len as int)
    }

    /// The encoded packet that is to be sent.
    pub open spec fn prepared(self) -> Seq<u8> {
        self.tx.take(self.tx_len as int)
    }

    /// The endpoint with another status.
    pub open spec fn with_status(self, status: EndpointStatus) -> EndpointModel {
        EndpointModel { status, ..self }
    }

    /// The endpoint once `payload` has arrived for it.
    pub open spec fn receiving(self, payload: Seq<u8>, is_setup: bool) -> EndpointModel {
        EndpointModel {
            rx: payload + self.rx.skip(payload.len() as int),
            rx_len: payload.len(),
            status: if is_setup {
                EndpointStatus::SetupReceived
            } else {
                EndpointStatus::Idle
            },
            ..self
        }
    }

    /// The endpoint with the packet `data` encoded and ready to be sent.
    pub open spec fn sending(self, data: Seq<u8>) -> EndpointModel {
        EndpointModel {
            tx: phy::encoded(data) + self.tx.skip(phy::encoded(data).len() as int),
            tx_len: phy::encoded(data).len(),
            status: EndpointStatus::TxReady,
            ..self
        }
    }

    /// The endpoint waiting for a packet, with an empty receive buffer.
    pub open spec fn listening(self) -> EndpointModel {
        EndpointModel { rx_len: 0, status: EndpointStatus::RxReady, ..self }
    }

    /// The endpoint after a bus reset.
    pub open spec fn reset(self) -> EndpointModel {
        EndpointModel { enabled: false, status: EndpointStatus::Idle, ..self }
    }
}

impl EndpointState {
    /// The invariant of an endpoint's state.
    pub open spec fn wf(self) -> bool {
        self@.wf()
    }

    /// An endpoint before any traffic.
    pub fn new() -> (state: Self)
        ensures
            state@ == EndpointModel::initial(),
            state.wf(),
    {
        EndpointState {
            rx_buf: [0; 64],
            rx_len: 0,
            tx_encoded_buf: [0; 156],
            tx_encoded_len: 0,
            status: EndpointStatus::Idle,
            enabled: false,
        }
    }

    /// Takes in a packet whose payload stands in `packet` behind SYNC and PID.
    pub fn receive(&mut self, packet: &[u8; 128], payload_len: usize, is_setup: bool)
        requires
            old(self).wf(),
            payload_len <= RX_BUF_LEN,
        ensures
            final(self)@ == old(self)@.receiving(packet@.subrange(2, 2 + payload_len), is_setup),
            final(self).wf(),
    {
        let ghost before = self.rx_buf@;
        let mut i: usize = 0;
        while i < payload_len
            invariant
                i <= payload_len <= RX_BUF_LEN,
                before == old(self).rx_buf@,
                self.rx_buf@ =~= packet@.subrange(2, 2 + i) + before.skip(i as int),
                self.rx_len == old(self).rx_len,
                self.tx_encoded_buf == old(self).tx_encoded_buf,
                self.tx_encoded_len == old(self).tx_encoded_len,
                self.status == old(self).status,
                self.enabled == old(self).enabled,
            decreases payload_len - i,
        {
            self.rx_buf[i] = packet[2 + i];
            i = i + 1;
        }
        self.rx_len = payload_len;
        self.status = if is_setup {
            EndpointStatus::SetupReceived
        } else {
            EndpointStatus::Idle
        };
    }

    /// Prepares the packet `buf` for transmission.
    pub fn send(&mut self, buf: &[u8])
        requires
            old(self).wf(),
            buf@.len() <= MAX_PACKET_LEN,
        ensures
            final(self)@ == old(self)@.sending(buf@),
            final(self).wf(),
    {
        proof {
            phy::laws::law_encoded_len(buf@);
        }
        self.tx_encoded_len = phy::encode_tx_data(buf, &mut self.tx_encoded_buf);
        self.status = EndpointStatus::TxReady;
    }

    /// Hands out the last packet's payload once the endpoint has gone idle.
    pub fn take_payload(&self, buf: &mut [u8]) -> (received: Poll<Result<usize, EndpointError>>)
        requires
            self.wf(),
            self.status == EndpointStatus::Idle ==> self.rx_len <= old(buf)@.len(),
        ensures
            self.status != EndpointStatus::Idle ==> received == Poll::<
                Result<usize, EndpointError>,
            >::Pending && final(buf)@ == old(buf)@,
            self.status == EndpointStatus::Idle ==> {
                &&& received == Poll::<Result<usize, EndpointError>>::Ready(Ok(self.rx_len))
                &&& final(buf)@ == self@.payload() + old(buf)@.skip(self.rx_len as int)
            },
    {
        if self.status == EndpointStatus::Idle {
            let len: usize = self.rx_len;
            let ghost before = buf@;
            let mut i: usize = 0;
            while i < len
                invariant
                    i <= len <= RX_BUF_LEN,
                    len <= before.len(),
                    buf@ =~= self.rx_buf@.take(i as int) + before.skip(i as int),
                decreases len - i,
            {
                buf[i] = self.rx_buf[i];
                i = i + 1;
            }
            Poll::Ready(Ok(len))
        } else {
            Poll::Pending
        }
    }

    /// Whether the prepared packet has been sent and acknowledged.
    pub fn sent(&self) -> (done: Poll<Result<(), EndpointError>>)
        ensures
            done == if self.status == EndpointStatus::Idle {
                Poll::Ready(Ok(()))
            } else {
                Poll::<Result<(), EndpointError>>::Pending
            },
    {
        if self.status == EndpointStatus::Idle {
            Poll::Ready(Ok(()))
        } else {
            Poll::Pending
        }
    }

    /// Whether the endpoint is enabled.
    pub fn is_enabled(&self) -> (enabled: Poll<()>)
        ensures
            enabled == if self.enabled {
                Poll::Ready(())
            } else {
                Poll::<()>::Pending
            },
    {
        if self.enabled {
            Poll::Ready(())
        } else {
            Poll::Pending
        }
    }
}

/// An endpoint that sends to the host.
pub struct PioEndpointIn {
    pub info: EndpointInfo,
}

/// An endpoint that receives from the host.
pub struct PioEndpointOut {
    pub info: EndpointInfo,
}

impl PioEndpointIn {
    /// The endpoint's number is one that the driver has a place for.
    pub open spec fn wf(self) -> bool {
        self.info.addr.number() < 16
    }

    /// The endpoint's number.
    pub open spec fn number(self) -> int {
        self.info.addr.number()
    }

    /// What the stack knows of the endpoint.
    pub fn info(&self) -> (info: &EndpointInfo)
        ensures
            *info == self.info,
    {
        &self.info
    }

    /// Whether the endpoint is enabled.
    pub fn wait_enabled(&self, state: &UsbIrqState) -> (enabled: Poll<()>)
        requires
            self.wf(),
        ensures
            enabled == if state@.ep_in[self.number()].enabled {
                Poll::Ready(())
            } else {
                Poll::<()>::Pending
            },
    {
        let ep: usize = self.info.addr.index();
        state.ep_in_states[ep].is_enabled()
    }

    /// Begins to send the packet `buf`; `poll_write` tells when it has arrived.
    pub fn write(&self, state: &mut UsbIrqState, buf: &[u8])
        requires
            self.wf(),
            old(state).wf(),
            buf@.len() <= MAX_PACKET_LEN,
        ensures
            final(state).wf(),
            final(state)@ == old(state)@.with_in(
                self.number(),
                old(state)@.ep_in[self.number()].sending(buf@),
            ),
    {
        let ep: usize = self.info.addr.index();
        state.ep_in_states[ep].send(buf);
        assert(state@ =~= old(state)@.with_in(
            self.number(),
            old(state)@.ep_in[self.number()].sending(buf@),
        ));
    }

    /// Whether the packet that `write` began to send has been acknowledged.
    pub fn poll_write(&self, state: &UsbIrqState) -> (done: Poll<Result<(), EndpointError>>)
        requires
            self.wf(),
        ensures
            done == if state@.ep_in[self.number()].status == EndpointStatus::Idle {
                Poll::Ready(Ok(()))
            } else {
                Poll::<Result<(), EndpointError>>::Pending
            },
    {
        let ep: usize = self.info.addr.index();
        state.ep_in_states[ep].sent()
    }
}

impl PioEndpointOut {
    /// The endpoint's number is one that the driver has a place for.
    pub open spec fn wf(self) -> bool {
        self.info.addr.number() < 16
    }

    /// The endpoint's number.
    pub open spec fn number(self) -> int {
        self.info.addr.number()
    }

    /// What the stack knows of the endpoint.
    pub fn info(&self) -> (info: &EndpointInfo)
        ensures
            *info == self.info,
    {
        &self.info
    }

    /// Whether the endpoint is enabled.
    pub fn wait_enabled(&self, state: &UsbIrqState) -> (enabled: Poll<()>)
        requires
            self.wf(),
        ensures
            enabled == if state@.ep_out[self.number()].enabled {
                Poll::Ready(())
            } else {
                Poll::<()>::Pending
            },
    {
        let ep: usize = self.info.addr.index();
        state.ep_out_states[ep].is_enabled()
    }

    /// Begins to wait for a packet; `poll_read` hands it out.
    pub fn read(&self, state: &mut UsbIrqState)
        requires
            self.wf(),
            old(state).wf(),
        ensures
            final(state).wf(),
            final(state)@ == old(state)@.with_out(
                self.number(),
                old(state)@.ep_out[self.number()].listening(),
            ),
    {
        let ep: usize = self.info.addr.index();
        state.ep_out_states[ep].status = EndpointStatus::RxReady;
        state.ep_out_states[ep].rx_len = 0;
        assert(state@ =~= old(state)@.with_out(
            self.number(),
            old(state)@.ep_out[self.number()].listening(),
        ));
    }

    /// Hands out the packet that `read` began to wait for.
    pub fn poll_read(&self, state: &UsbIrqState, buf: &mut [u8]) -> (received: Poll<
        Result<usize, EndpointError>,
    >)
        requires
            self.wf(),
            state.wf(),
            state@.ep_out[self.number()].status == EndpointStatus::Idle
                ==> state@.ep_out[self.number()].rx_len <= old(buf)@.len(),
        ensures
            state@.ep_out[self.number()].status != EndpointStatus::Idle ==> received == Poll::<
                Result<usize, EndpointError>,
            >::Pending && final(buf)@ == old(buf)@,
            state@.ep_out[self.number()].status == EndpointStatus::Idle ==> {
                let payload = state@.ep_out[self.number()].payload();
                &&& received matches Poll::Ready(Ok(len)) && len == payload.len()
                &&& final(buf)@ == payload + old(buf)@.skip(payload.len() as int)
            },
    {
        let ep: usize = self.info.addr.index();
        state.ep_out_states[ep].take_payload(buf)
    }
}

} // verus!
