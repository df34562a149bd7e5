//! The link layer: what the PIO interrupt does with what came over the line.
use vstd::prelude::*;
use crate::driver::endpoint::{EndpointModel, EndpointState, EndpointStatus};
use crate::phy;

verus! {

/// Size of the buffer that the receive DMA fills.
pub const RX_DMA_LEN: u32 = 128;

/// Raw handshake packets: SYNC and PID.
pub const ACK_PACKET: [u8; 2] = [0x80, 0xD2];

pub const NAK_PACKET: [u8; 2] = [0x80, 0x5A];

pub const STALL_PACKET: [u8; 2] = [0x80, 0x1E];

/// Something that happened on the bus.
#[derive(Copy, Clone, PartialEq, Eq, Structural, Debug)]
pub enum Event {
    Reset,
    Suspend,
    Resume,
    PowerDetected,
    PowerRemoved,
}

/// State shared between the tasks and the interrupt.
pub struct UsbIrqState {
    pub ep_in_states: [EndpointState; 16],
    pub ep_out_states: [EndpointState; 16],
    /// Encoded handshake packets for immediate transmission.
    pub encoded_ack: [u8; 8],
    pub encoded_nak: [u8; 8],
    pub encoded_stall: [u8; 8],
    pub tx_dma_ctrl_word: u32,
    /// What the receive DMA has written.
    pub rx_dma_buf: [u8; 128],
    pub rx_dma_ctrl_word: u32,
    pub dp_dm_mask: u32,
    pub bus_event: Option<Event>,
    /// The endpoint whose data packet comes next, and whether a SETUP token announced it.
    pub expect_data: Option<(u8, bool)>,
    /// The endpoint that sent last and has not been acknowledged.
    pub last_tx_ep: Option<u8>,
}

/// The contents of the shared state.
#[verifier::ext_equal]
pub struct LinkModel {
    pub ep_in: Seq<EndpointModel>,
    pub ep_out: Seq<EndpointModel>,
    pub ack: Seq<u8>,
    pub nak: Seq<u8>,
    pub stall: Seq<u8>,
    pub tx_control: u32,
    pub rx: Seq<u8>,
    pub rx_control: u32,
    pub line_mask: u32,
    pub event: Option<Event>,
    pub expect_data: Option<(u8, bool)>,
    pub last_tx: Option<u8>,
}

impl View for UsbIrqState {
    type V = LinkModel;

    open spec fn view(&self) -> LinkModel {
        LinkModel {
            ep_in: Seq::new(16, |i: int| self.ep_in_states@[i]@),
            ep_out: Seq::new(16, |i: int| self.ep_out_states@[i]@),
            ack: self.encoded_ack@,
            nak: self.encoded_nak@,
            stall: self.encoded_stall@,
            tx_control: self.tx_dma_ctrl_word,
            rx: self.rx_dma_buf@,
            rx_control: self.rx_dma_ctrl_word,
            line_mask: self.dp_dm_mask,
            event: self.bus_event,
            expect_data: self.expect_data,
            last_tx: self.last_tx_ep,
        }
    }
}

/// A packet from the host, as far as the link layer looks into it.
#[derive(Copy, Clone, PartialEq, Eq, Structural, Debug)]
pub enum Packet {
    /// SETUP token for an endpoint.
    Setup(u8),
    /// OUT token for an endpoint.
    Out(u8),
    /// IN token for an endpoint.
    In(u8),
    /// Data of either parity.
    Data,
    /// ACK handshake.
    Ack,
    /// Anything else, and whatever is damaged or cut short.
    Other,
}

/// What can be transmitted.
#[derive(Copy, Clone, PartialEq, Eq, Structural, Debug)]
pub enum TxSource {
    /// The packet that an IN endpoint has prepared.
    Endpoint(u8),
    Ack,
    Nak,
    Stall,
}

/// A task that waits for the interrupt.
#[derive(Copy, Clone, PartialEq, Eq, Structural, Debug)]
pub enum WakeTarget {
    Bus,
    In(u8),
    Out(u8),
}

/// How the device answers a packet: whom it wakes, and then what it sends.
#[derive(Copy, Clone, PartialEq, Eq, Structural, Debug)]
pub struct Response {
    pub wake: Option<WakeTarget>,
    pub send: Option<TxSource>,
}

/// The packet in a receive buffer: SYNC in the first byte, the PID and its complement in
/// the second, and behind a token's PID seven bits of address and four of endpoint number.
pub open spec fn packet_of(rx: Seq<u8>, len: int) -> Packet {
    let pid = rx[1] as int % 16;
    let endpoint = ((rx[2] as int / 128) + 2 * (rx[3] as int % 8)) as u8;
    if pid + rx[1] as int / 16 != 15 {
        Packet::Other
    } else if pid == 0x0d && len >= 4 {
        Packet::Setup(endpoint)
    } else if pid == 0x01 && len >= 4 {
        Packet::Out(endpoint)
    } else if pid == 0x09 && len >= 4 {
        Packet::In(endpoint)
    } else if pid == 0x03 || pid == 0x0b {
        Packet::Data
    } else if pid == 0x02 {
        Packet::Ack
    } else {
        Packet::Other
    }
}

/// The payload of a data packet of `len` bytes: what stands between SYNC and PID in front
/// and two bytes of CRC behind.
pub open spec fn payload_of(rx: Seq<u8>, len: int) -> Seq<u8> {
    rx.subrange(2, len - 2)
}

/// An answer that does nothing.
pub open spec fn silence() -> Response {
    Response { wake: None, send: None }
}

/// An answer that only transmits.
pub open spec fn reply(source: TxSource) -> Response {
    Response { wake: None, send: Some(source) }
}

impl LinkModel {
    /// Sizes are as declared, every endpoint's state is valid, and the endpoint numbers
    /// that are kept belong to endpoints.
    pub open spec fn wf(self) -> bool {
        &&& self.ep_in.len() == 16
        &&& self.ep_out.len() == 16
        &&& forall|i: int| 0 <= i < 16 ==> (#[trigger] self.ep_in[i]).wf()
        &&& forall|i: int| 0 <= i < 16 ==> (#[trigger] self.ep_out[i]).wf()
        &&& self.ack.len() == 8
        &&& self.nak.len() == 8
        &&& self.stall.len() == 8
        &&& self.rx.len() == RX_DMA_LEN
        &&& self.expect_data matches Some(expected) ==> expected.0 < 16
        &&& self.last_tx matches Some(ep) ==> ep < 16
    }

    /// The state before any traffic.
    pub open spec fn initial(tx_control: u32, rx_control: u32, line_mask: u32) -> LinkModel {
        LinkModel {
            ep_in: Seq::new(16, |i: int| EndpointModel::initial()),
            ep_out: Seq::new(16, |i: int| EndpointModel::initial()),
            ack: handshake(ACK_PACKET@),
            nak: handshake(NAK_PACKET@),
            stall: handshake(STALL_PACKET@),
            tx_control,
            rx: Seq::new(RX_DMA_LEN as nat, |i: int| 0u8),
            rx_control,
            line_mask,
            event: None,
            expect_data: None,
            last_tx: None,
        }
    }

    /// The state with another IN endpoint `ep`.
    pub open spec fn with_in(self, ep: int, endpoint: EndpointModel) -> LinkModel {
        LinkModel { ep_in: self.ep_in.update(ep, endpoint), ..self }
    }

    /// The state with another OUT endpoint `ep`.
    pub open spec fn with_out(self, ep: int, endpoint: EndpointModel) -> LinkModel {
        LinkModel { ep_out: self.ep_out.update(ep, endpoint), ..self }
    }

    /// The bytes that a transmission sends.
    pub open spec fn bytes_of(self, source: TxSource) -> Seq<u8> {
        match source {
            TxSource::Endpoint(ep) => self.ep_in[ep as int].prepared(),
            TxSource::Ack => self.ack,
            TxSource::Nak => self.nak,
            TxSource::Stall => self.stall,
        }
    }

    /// Whether a data packet is taken in that is announced as `expected`: data behind a
    /// SETUP token always, other data when a task waits for it.
    pub open spec fn takes_data(self, expected: (u8, bool)) -> bool {
        expected.1 || self.ep_out[expected.0 as int].status == EndpointStatus::RxReady
    }

    /// Whether a packet of `len` bytes can be processed: it lies within the receive buffer,
    /// and if it brings data that are taken in, their payload fits an endpoint's buffer.
    pub open spec fn fits(self, len: int) -> bool {
        &&& 2 <= len <= RX_DMA_LEN
        &&& packet_of(self.rx, len) == Packet::Data && len >= 4 ==> (self.expect_data matches Some(
            expected,
        ) ==> self.takes_data(expected) ==> len - 4 <= 64)
    }

    /// The answer to the packet of `len` bytes in the receive buffer.
    pub open spec fn response(self, len: int) -> Response {
        match packet_of(self.rx, len) {
            Packet::Setup(_) | Packet::Out(_) | Packet::Other => silence(),
            Packet::In(ep) => match self.ep_in[ep as int].status {
                EndpointStatus::TxReady => reply(TxSource::Endpoint(ep)),
                EndpointStatus::Stalled => reply(TxSource::Stall),
                _ => reply(TxSource::Nak),
            },
            Packet::Data => match self.expect_data {
                None => silence(),
                Some(expected) => if !self.takes_data(expected) {
                    if self.ep_out[expected.0 as int].status == EndpointStatus::Stalled {
                        reply(TxSource::Stall)
                    } else {
                        reply(TxSource::Nak)
                    }
                } else if len >= 4 {
                    Response {
                        wake: Some(WakeTarget::Out(expected.0)),
                        send: Some(TxSource::Ack),
                    }
                } else {
                    silence()
                },
            },
            Packet::Ack => match self.last_tx {
                None => silence(),
                Some(ep) => Response { wake: Some(WakeTarget::In(ep)), send: None },
            },
        }
    }

    /// The state after the packet of `len` bytes in the receive buffer.
    pub open spec fn after_packet(self, len: int) -> LinkModel {
        match packet_of(self.rx, len) {
            Packet::Setup(ep) => LinkModel { expect_data: Some((ep, true)), ..self },
            Packet::Out(ep) => LinkModel { expect_data: Some((ep, false)), ..self },
            Packet::In(ep) => if self.ep_in[ep as int].status == EndpointStatus::TxReady {
                LinkModel { last_tx: Some(ep), ..self }
            } else {
                self
            },
            Packet::Data => match self.expect_data {
                None => self,
                Some(expected) => {
                    let waiting = LinkModel { expect_data: None, ..self };
                    if self.takes_data(expected) && len >= 4 {
                        waiting.with_out(
                            expected.0 as int,
                            self.ep_out[expected.0 as int].receiving(
                                payload_of(self.rx, len),
                                expected.1,
                            ),
                        )
                    } else {
                        waiting
                    }
                },
            },
            Packet::Ack => match self.last_tx {
                None => self,
                Some(ep) => LinkModel { last_tx: None, ..self }.with_in(
                    ep as int,
                    self.ep_in[ep as int].with_status(EndpointStatus::Idle),
                ),
            },
            Packet::Other => self,
        }
    }

    /// The state after a bus reset: the event is there to be polled, and every endpoint is
    /// disabled and idle.
    pub open spec fn after_reset(self) -> LinkModel {
        LinkModel {
            event: Some(Event::Reset),
            ep_in: self.ep_in.map_values(|e: EndpointModel| e.reset()),
            ep_out: self.ep_out.map_values(|e: EndpointModel| e.reset()),
            ..self
        }
    }
}

/// A handshake packet in its buffer: the encoded packet, with zeros behind it.
pub open spec fn handshake(packet: Seq<u8>) -> Seq<u8> {
    phy::encoded(packet) + Seq::new((8 - phy::encoded(packet).len()) as nat, |i: int| 0u8)
}

/// Encodes a handshake packet.
fn encode_handshake(packet: &[u8; 2]) -> (encoded: [u8; 8])
    ensures
        encoded@ == handshake(packet@),
{
    let mut encoded: [u8; 8] = [0; 8];
    proof {
        phy::laws::law_encoded_len(packet@);
    }
    let written: usize = phy::encode_tx_data(packet, &mut encoded);
    assert(encoded@ =~= handshake(packet@));
    encoded
}

/// Brings every endpoint into the state after a bus reset.
fn reset_endpoints(states: &mut [EndpointState; 16])
    ensures
        forall|i: int| 0 <= i < 16 ==> (#[trigger] final(states)@[i])@ == old(states)@[i]@.reset(),
{
    let ghost before = states@;
    let mut i: usize = 0;
    while i < 16
        invariant
            i <= 16,
            before == old(states)@,
            forall|j: int| 0 <= j < i ==> (#[trigger] states@[j])@ == before[j]@.reset(),
            forall|j: int| i <= j < 16 ==> #[trigger] states@[j] == before[j],
        decreases 16 - i,
    {
        states[i].enabled = false;
        states[i].status = EndpointStatus::Idle;
        assert(states@[i as int]@ =~= before[i as int]@.reset());
        i = i + 1;
    }
}

impl UsbIrqState {
    /// The invariant of the shared state.
    pub open spec fn wf(self) -> bool {
        self@.wf()
    }

    /// The shared state before any traffic.
    pub fn new(tx_dma_ctrl_word: u32, rx_dma_ctrl_word: u32, dp_dm_mask: u32) -> (state: Self)
        ensures
            state.wf(),
            state@ == LinkModel::initial(tx_dma_ctrl_word, rx_dma_ctrl_word, dp_dm_mask),
    {
        UsbIrqState {
            ep_in_states: [EndpointState::new();16],
            ep_out_states: [EndpointState::new();16],
            encoded_ack: encode_handshake(&ACK_PACKET),
            encoded_nak: encode_handshake(&NAK_PACKET),
            encoded_stall: encode_handshake(&STALL_PACKET),
            tx_dma_ctrl_word,
            rx_dma_buf: [0;128],
            rx_dma_ctrl_word,
            dp_dm_mask,
            bus_event: None,
            expect_data: None,
            last_tx_ep: None,
        }
    }

    /// The packet of `len` bytes in the receive buffer.
    pub fn packet(&self, len: usize) -> (packet: Packet)
        ensures
            packet == packet_of(self@.rx, len as int),
            packet matches Packet::Setup(ep) ==> ep < 16,
            packet matches Packet::Out(ep) ==> ep < 16,
            packet matches Packet::In(ep) ==> ep < 16,
    {
        let pid_raw: u8 = self.rx_dma_buf[1];
        let pid: u8 = pid_raw & 0x0F;
        let pid_inv: u8 = (!pid_raw >> 4) & 0x0F;
        let low: u8 = self.rx_dma_buf[2];
        let high: u8 = self.rx_dma_buf[3];
        let ep: u8 = (low >> 7) | ((high & 0x07) << 1);
        proof {
            assert(pid_raw & 0x0Fu8 == pid_raw % 16) by (bit_vector);
            assert((!pid_raw >> 4u8) & 0x0Fu8 == 15 - pid_raw / 16) by (bit_vector);
            assert((low >> 7u8) | ((high & 0x07u8) << 1u8) == low / 128 + 2 * (high % 8)) by (bit_vector);
            assert((low >> 7u8) | ((high & 0x07u8) << 1u8) < 16) by (bit_vector);
        }
        if pid != pid_inv {
            return Packet::Other;
        }
        match pid {
            0x0D if len >= 4 => Packet::Setup(ep),
            0x01 if len >= 4 => Packet::Out(ep),
            0x09 if len >= 4 => Packet::In(ep),
            0x03 | 0x0B => Packet::Data,
            0x02 => Packet::Ack,
            _ => Packet::Other,
        }
    }

    /// Whether a packet of `len` bytes can be processed.
    pub fn packet_fits(&self, len: usize) -> (fits: bool)
        requires
            self.wf(),
        ensures
            fits == self@.fits(len as int),
    {
        if len < 2 || len > 128 {
            return false;
        }
        match self.packet(len) {
            Packet::Data => match self.expect_data {
                Some((ep, is_setup)) => {
                    let taken: bool = is_setup || self.ep_out_states[ep as usize].status
                        == EndpointStatus::RxReady;
                    len < 4 || !taken || len - 4 <= 64
                },
                None => true,
            },
            _ => true,
        }
    }

    /// Processes the packet of `len` bytes in the receive buffer.
    pub fn on_packet(&mut self, len: usize) -> (response: Response)
        requires
            old(self).wf(),
            old(self)@.fits(len as int),
        ensures
            final(self).wf(),
            final(self)@ == old(self)@.after_packet(len as int),
            response == old(self)@.response(len as int),
    {
        let packet = self.packet(len);
        let mut response = Response { wake: None, send: None };
        match packet {
            Packet::Setup(ep) => {
                self.expect_data = Some((ep, true));
            },
            Packet::Out(ep) => {
                self.expect_data = Some((ep, false));
            },
            Packet::In(ep) => {
                match self.ep_in_states[ep as usize].status {
                    EndpointStatus::TxReady => {
                        self.last_tx_ep = Some(ep);
                        response.send = Some(TxSource::Endpoint(ep));
                    },
                    EndpointStatus::Stalled => {
                        response.send = Some(TxSource::Stall);
                    },
                    _ => {
                        response.send = Some(TxSource::Nak);
                    },
                }
            },
            Packet::Data => {
                if let Some((ep, is_setup)) = self.expect_data.take() {
                    let status: EndpointStatus = self.ep_out_states[ep as usize].status;
                    if is_setup || status == EndpointStatus::RxReady {
                        if len >= 4 {
                            self.ep_out_states[ep as usize].receive(
                                &self.rx_dma_buf,
                                len - 4,
                                is_setup,
                            );
                            response.wake = Some(WakeTarget::Out(ep));
                            response.send = Some(TxSource::Ack);
                        }
                    } else if status == EndpointStatus::Stalled {
                        response.send = Some(TxSource::Stall);
                    } else {
                        response.send = Some(TxSource::Nak);
                    }
                }
            },
            Packet::Ack => {
                if let Some(ep) = self.last_tx_ep.take() {
                    self.ep_in_states[ep as usize].status = EndpointStatus::Idle;
                    response.wake = Some(WakeTarget::In(ep));
                }
            },
            Packet::Other => {},
        }
        assert(self@ =~= old(self)@.after_packet(len as int));
        response
    }

    /// The bytes that a transmission sends.
    pub fn transmission(&self, source: TxSource) -> (bytes: &[u8])
        requires
            self.wf(),
            source matches TxSource::Endpoint(ep) ==> ep < 16,
        ensures
            bytes@ == self@.bytes_of(source),
    {
        match source {
            TxSource::Endpoint(ep) => {
                let endpoint: &EndpointState = &self.ep_in_states[ep as usize];
                assert(self@.ep_in[ep as int].wf());
                &endpoint.tx_encoded_buf[0..endpoint.tx_encoded_len]
            },
            TxSource::Ack => &self.encoded_ack,
            TxSource::Nak => &self.encoded_nak,
            TxSource::Stall => &self.encoded_stall,
        }
    }

    /// Processes a bus reset.
    pub fn bus_reset(&mut self)
        requires
            old(self).wf(),
        ensures
            final(self).wf(),
            final(self)@ == old(self)@.after_reset(),
    {
        self.bus_event = Some(Event::Reset);
        reset_endpoints(&mut self.ep_in_states);
        reset_endpoints(&mut self.ep_out_states);
        assert(self@ =~= old(self)@.after_reset());
    }
}

} // verus!
