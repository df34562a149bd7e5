//! What holds of the driver across calls.
use vstd::prelude::*;
use crate::driver;
use crate::driver::address::EndpointAddress;
use crate::driver::bus;
use crate::driver::endpoint::{EndpointStatus, MAX_PACKET_LEN, RX_BUF_LEN, TX_BUF_LEN};
use crate::driver::hardware;
use crate::driver::interrupt::{
    IrqAction, IrqPhase, PioUsbIrqHandler, DMA_ENABLE, EOP_FLAG, RESET_DELAY, SPARE_FLAG,
};
use crate::driver::irq;
use crate::driver::irq::{Event, LinkModel, Packet, Response, TxSource, WakeTarget, RX_DMA_LEN};
use crate::phy;

pub mod allocation;
pub mod interrupts;
pub mod operations;
pub mod packets;
pub mod startup;
pub mod transfers;

verus! {

/// `link` with the bytes of a packet at the start of the receive buffer.
pub open spec fn arriving(link: LinkModel, packet: Seq<u8>) -> LinkModel {
    LinkModel { rx: packet + link.rx.skip(packet.len() as int), ..link }
}

/// `link` after a packet has come in and has been processed.
pub open spec fn after(link: LinkModel, packet: Seq<u8>) -> LinkModel {
    arriving(link, packet).after_packet(packet.len() as int)
}

/// The answer to a packet that comes in.
pub open spec fn answer(link: LinkModel, packet: Seq<u8>) -> Response {
    arriving(link, packet).response(packet.len() as int)
}

/// The bytes of `packet` are a packet of this kind.
pub open spec fn is_packet(packet: Seq<u8>, kind: Packet) -> bool {
    &&& 2 <= packet.len() <= RX_DMA_LEN
    &&& irq::packet_of(packet, packet.len() as int) == kind
}

/// What stands in the receive buffer is the packet that came in.
proof fn lemma_arriving(link: LinkModel, packet: Seq<u8>)
    requires
        link.wf(),
        2 <= packet.len() <= RX_DMA_LEN,
    ensures
        irq::packet_of(arriving(link, packet).rx, packet.len() as int) == irq::packet_of(
            packet,
            packet.len() as int,
        ),
        packet.len() >= 4 ==> irq::payload_of(arriving(link, packet).rx, packet.len() as int)
            == packet.subrange(2, packet.len() - 2),
        arriving(link, packet).wf(),
{
    let rx = arriving(link, packet).rx;
    assert(rx[1] == packet[1]);
    if packet.len() >= 4 {
        assert(rx[2] == packet[2] && rx[3] == packet[3]);
        assert(irq::payload_of(rx, packet.len() as int) =~= packet.subrange(2, packet.len() - 2));
    }
}

/// A token names one of the sixteen endpoints.
proof fn lemma_token_endpoint(packet: Seq<u8>, ep: u8)
    requires
        is_packet(packet, Packet::Setup(ep)) || is_packet(packet, Packet::Out(ep)) || is_packet(
            packet,
            Packet::In(ep),
        ),
    ensures
        ep < 16,
{
}

/// A packet keeps the shared state valid.
pub proof fn law_packet_keeps_wf(link: LinkModel, len: int)
    requires
        link.wf(),
        link.fits(len),
    ensures
        link.after_packet(len).wf(),
{
    let next = link.after_packet(len);
    assert forall|i: int| 0 <= i < 16 implies (#[trigger] next.ep_in[i]).wf() by {
        assert(link.ep_in[i].wf());
    }
    assert forall|i: int| 0 <= i < 16 implies (#[trigger] next.ep_out[i]).wf() by {
        assert(link.ep_out[i].wf());
    }
}

/// What a task writes is what the host gets: the next IN token for the endpoint is answered
/// with the encoded packet, from which the host recovers the data; the write is pending until
/// the host acknowledges, and complete, its task woken, as soon as it does.
pub proof fn law_in_transfer(link: LinkModel, ep: u8, data: Seq<u8>, token: Seq<u8>, ack: Seq<u8>)
    requires
        link.wf(),
        data.len() <= MAX_PACKET_LEN,
        is_packet(token, Packet::In(ep)),
        is_packet(ack, Packet::Ack),
    ensures
        ({
            let ready = link.with_in(ep as int, link.ep_in[ep as int].sending(data));
            let sent = after(ready, token);
            let done = after(sent, ack);
            &&& answer(ready, token) == irq::reply(TxSource::Endpoint(ep))
            &&& sent.bytes_of(TxSource::Endpoint(ep)) == phy::encoded(data)
            &&& phy::laws::decoded(sent.bytes_of(TxSource::Endpoint(ep))) == data
            &&& sent.ep_in[ep as int].status != EndpointStatus::Idle
            &&& answer(sent, ack) == (Response { wake: Some(WakeTarget::In(ep)), send: None })
            &&& done.ep_in[ep as int].status == EndpointStatus::Idle
        }),
{
    let ready = link.with_in(ep as int, link.ep_in[ep as int].sending(data));
    lemma_token_endpoint(token, ep);
    law_tx_capacity(data);
    assert(link.ep_in[ep as int].wf());
    assert forall|i: int| 0 <= i < 16 implies (#[trigger] ready.ep_in[i]).wf() by {
        assert(link.ep_in[i].wf());
    }
    lemma_arriving(ready, token);
    let sent = after(ready, token);
    law_packet_keeps_wf(arriving(ready, token), token.len() as int);
    lemma_arriving(sent, ack);
    assert(sent.bytes_of(TxSource::Endpoint(ep)) =~= phy::encoded(data));
    phy::laws::law_decode_encoded(data, Seq::empty());
    assert(phy::encoded(data) + Seq::<u8>::empty() =~= phy::encoded(data));
}

/// A packet that the host did not acknowledge is sent again, unchanged, for its next IN
/// token.
pub proof fn law_retransmission(link: LinkModel, ep: u8, first: Seq<u8>, second: Seq<u8>)
    requires
        link.wf(),
        is_packet(first, Packet::In(ep)),
        is_packet(second, Packet::In(ep)),
        link.ep_in[ep as int].status == EndpointStatus::TxReady,
    ensures
        answer(link, first) == irq::reply(TxSource::Endpoint(ep)),
        answer(after(link, first), second) == irq::reply(TxSource::Endpoint(ep)),
        after(link, first).bytes_of(TxSource::Endpoint(ep)) == link.bytes_of(TxSource::Endpoint(ep)),
        after(after(link, first), second).bytes_of(TxSource::Endpoint(ep)) == link.bytes_of(
            TxSource::Endpoint(ep),
        ),
{
    lemma_token_endpoint(first, ep);
    lemma_arriving(link, first);
    law_packet_keeps_wf(arriving(link, first), first.len() as int);
    lemma_arriving(after(link, first), second);
}

/// One acknowledgement completes one transmission: without another IN token a second one
/// does nothing.
pub proof fn law_single_acknowledgement(link: LinkModel, first: Seq<u8>, second: Seq<u8>)
    requires
        link.wf(),
        is_packet(first, Packet::Ack),
        is_packet(second, Packet::Ack),
    ensures
        answer(after(link, first), second) == irq::silence(),
        after(after(link, first), second) == arriving(after(link, first), second),
{
    lemma_arriving(link, first);
    law_packet_keeps_wf(arriving(link, first), first.len() as int);
    lemma_arriving(after(link, first), second);
}

/// What the host sends is what a task reads: to an endpoint on which a task waits, an OUT
/// token and a data packet deliver exactly the packet's payload, acknowledge it, and wake
/// the task, whose read is then complete.
pub proof fn law_out_transfer(link: LinkModel, ep: u8, token: Seq<u8>, data: Seq<u8>)
    requires
        link.wf(),
        is_packet(token, Packet::Out(ep)),
        is_packet(data, Packet::Data),
        4 <= data.len() <= 4 + RX_BUF_LEN,
        link.ep_out[ep as int].status == EndpointStatus::RxReady,
    ensures
        ({
            let told = after(link, token);
            let done = after(told, data);
            &&& answer(link, token) == irq::silence()
            &&& told.ep_out == link.ep_out
            &&& answer(told, data) == (Response {
                wake: Some(WakeTarget::Out(ep)),
                send: Some(TxSource::Ack),
            })
            &&& done.ep_out[ep as int].status == EndpointStatus::Idle
            &&& done.ep_out[ep as int].payload() == data.subrange(2, data.len() - 2)
        }),
{
    lemma_token_endpoint(token, ep);
    lemma_arriving(link, token);
    law_packet_keeps_wf(arriving(link, token), token.len() as int);
    let told = after(link, token);
    lemma_arriving(told, data);
    let done = after(told, data);
    assert(link.ep_out[ep as int].wf());
    assert(done.ep_out[ep as int].payload() =~= data.subrange(2, data.len() - 2));
}

/// A SETUP packet is always taken in, even by a stalled or busy endpoint: it is
/// acknowledged, and the control pipe finds its eight bytes.
pub proof fn law_setup_transfer(link: LinkModel, ep: u8, token: Seq<u8>, data: Seq<u8>)
    requires
        link.wf(),
        is_packet(token, Packet::Setup(ep)),
        is_packet(data, Packet::Data),
        12 <= data.len() <= 4 + RX_BUF_LEN,
    ensures
        ({
            let told = after(link, token);
            let done = after(told, data);
            &&& answer(link, token) == irq::silence()
            &&& answer(told, data) == (Response {
                wake: Some(WakeTarget::Out(ep)),
                send: Some(TxSource::Ack),
            })
            &&& done.ep_out[ep as int].status == EndpointStatus::SetupReceived
            &&& done.ep_out[ep as int].rx.take(8) == data.subrange(2, 10)
        }),
{
    lemma_token_endpoint(token, ep);
    lemma_arriving(link, token);
    law_packet_keeps_wf(arriving(link, token), token.len() as int);
    let told = after(link, token);
    lemma_arriving(told, data);
    let done = after(told, data);
    assert(link.ep_out[ep as int].wf());
    assert(done.ep_out[ep as int].rx.take(8) =~= data.subrange(2, 10));
}

/// Data for an endpoint on which no task waits are refused and leave no trace: the answer is
/// STALL from a stalled endpoint and NAK from any other.
pub proof fn law_out_refused(link: LinkModel, ep: u8, token: Seq<u8>, data: Seq<u8>)
    requires
        link.wf(),
        is_packet(token, Packet::Out(ep)),
        is_packet(data, Packet::Data),
        link.ep_out[ep as int].status != EndpointStatus::RxReady,
    ensures
        ({
            let told = after(link, token);
            let done = after(told, data);
            &&& answer(told, data) == irq::reply(
                if link.ep_out[ep as int].status == EndpointStatus::Stalled {
                    TxSource::Stall
                } else {
                    TxSource::Nak
                },
            )
            &&& done.ep_out == link.ep_out
            &&& done.ep_in == link.ep_in
        }),
{
    lemma_token_endpoint(token, ep);
    lemma_arriving(link, token);
    law_packet_keeps_wf(arriving(link, token), token.len() as int);
    lemma_arriving(after(link, token), data);
}

/// An IN token for an endpoint that has nothing prepared leaves everything as it is: the
/// answer is STALL from a stalled endpoint and NAK from any other.
pub proof fn law_in_refused(link: LinkModel, ep: u8, token: Seq<u8>)
    requires
        link.wf(),
        is_packet(token, Packet::In(ep)),
        link.ep_in[ep as int].status != EndpointStatus::TxReady,
    ensures
        answer(link, token) == irq::reply(
            if link.ep_in[ep as int].status == EndpointStatus::Stalled {
                TxSource::Stall
            } else {
                TxSource::Nak
            },
        ),
        after(link, token) == arriving(link, token),
{
    lemma_arriving(link, token);
}

/// A token is good for one data packet: data that no token announces are ignored.
pub proof fn law_data_needs_token(link: LinkModel, first: Seq<u8>, second: Seq<u8>)
    requires
        link.wf(),
        is_packet(first, Packet::Data),
        is_packet(second, Packet::Data),
        arriving(link, first).fits(first.len() as int),
    ensures
        answer(after(link, first), second) == irq::silence(),
        after(after(link, first), second) == arriving(after(link, first), second),
{
    lemma_arriving(link, first);
    law_packet_keeps_wf(arriving(link, first), first.len() as int);
    lemma_arriving(after(link, first), second);
}

/// A packet whose PID does not match its complement is ignored.
pub proof fn law_damaged_packet(link: LinkModel, len: int)
    requires
        link.rx[1] as int % 16 + link.rx[1] as int / 16 != 15,
    ensures
        link.response(len) == irq::silence(),
        link.after_packet(len) == link,
{
}

/// A packet concerns one endpoint at most: an IN endpoint changes only when its own
/// transmission is acknowledged, an OUT endpoint only when data announced for it come in,
/// and nothing is enabled or disabled, nor an event raised.
pub proof fn law_packet_frame(link: LinkModel, len: int, i: int)
    requires
        link.wf(),
        link.fits(len),
        0 <= i < 16,
    ensures
        ({
            let next = link.after_packet(len);
            let packet = irq::packet_of(link.rx, len);
            &&& next.ep_in[i] != link.ep_in[i] ==> packet == Packet::Ack && link.last_tx == Some(
                i as u8,
            )
            &&& next.ep_out[i] != link.ep_out[i] ==> packet == Packet::Data && (
            link.expect_data matches Some(expected) && expected.0 == i)
            &&& next.ep_in[i].enabled == link.ep_in[i].enabled
            &&& next.ep_out[i].enabled == link.ep_out[i].enabled
            &&& next.event == link.event
            &&& next.rx == link.rx
            &&& next.ack == link.ack
            &&& next.nak == link.nak
            &&& next.stall == link.stall
            &&& next.line_mask == link.line_mask
            &&& next.tx_control == link.tx_control
            &&& next.rx_control == link.rx_control
        }),
{
}

/// After a bus reset every endpoint is disabled and idle, the reset waits to be polled, and
/// IN tokens and plain data are answered with NAK.
pub proof fn law_reset(link: LinkModel, ep: u8, token: Seq<u8>, data_token: Seq<u8>, data: Seq<u8>)
    requires
        link.wf(),
        is_packet(token, Packet::In(ep)),
        is_packet(data_token, Packet::Out(ep)),
        is_packet(data, Packet::Data),
    ensures
        ({
            let fresh = link.after_reset();
            &&& fresh.wf()
            &&& fresh.event == Some(Event::Reset)
            &&& !fresh.ep_in[ep as int].enabled
            &&& !fresh.ep_out[ep as int].enabled
            &&& fresh.ep_in[ep as int].status == EndpointStatus::Idle
            &&& fresh.ep_out[ep as int].status == EndpointStatus::Idle
            &&& answer(fresh, token) == irq::reply(TxSource::Nak)
            &&& answer(after(fresh, data_token), data) == irq::reply(TxSource::Nak)
        }),
{
    let fresh = link.after_reset();
    lemma_token_endpoint(token, ep);
    assert forall|i: int| 0 <= i < 16 implies (#[trigger] fresh.ep_in[i]).wf() by {
        assert(link.ep_in[i].wf());
    }
    assert forall|i: int| 0 <= i < 16 implies (#[trigger] fresh.ep_out[i]).wf() by {
        assert(link.ep_out[i].wf());
    }
    law_in_refused(fresh, ep, token);
    law_out_refused(fresh, ep, data_token, data);
}

/// A stalled endpoint reads as stalled, and one whose STALL condition was cleared does not;
/// no other endpoint, nor the other direction of the same number, is affected.
pub proof fn law_stall(
    link: LinkModel,
    address: EndpointAddress,
    stalled: bool,
    other: EndpointAddress,
)
    requires
        link.wf(),
        address.number() < 16,
        other.number() < 16,
    ensures
        ({
            let next = bus::with_status_at(
                link,
                address,
                if stalled {
                    EndpointStatus::Stalled
                } else {
                    EndpointStatus::Idle
                },
            );
            &&& (bus::status_at(next, address) == EndpointStatus::Stalled) == stalled
            &&& other != address ==> bus::status_at(next, other) == bus::status_at(link, other)
        }),
{
    if other != address && other.inward() == address.inward() {
        assert(other.number() != address.number());
    }
}

/// A stalled endpoint answers STALL to the host, and with the condition cleared NAK.
pub proof fn law_stall_answer(
    link: LinkModel,
    address: EndpointAddress,
    stalled: bool,
    in_token: Seq<u8>,
    out_token: Seq<u8>,
    data: Seq<u8>,
)
    requires
        link.wf(),
        address.number() < 16,
        is_packet(in_token, Packet::In(address.number() as u8)),
        is_packet(out_token, Packet::Out(address.number() as u8)),
        is_packet(data, Packet::Data),
    ensures
        ({
            let next = bus::with_status_at(
                link,
                address,
                if stalled {
                    EndpointStatus::Stalled
                } else {
                    EndpointStatus::Idle
                },
            );
            let expected = irq::reply(
                if stalled {
                    TxSource::Stall
                } else {
                    TxSource::Nak
                },
            );
            if address.inward() {
                answer(next, in_token) == expected
            } else {
                answer(after(next, out_token), data) == expected
            }
        }),
{
    let status = if stalled {
        EndpointStatus::Stalled
    } else {
        EndpointStatus::Idle
    };
    let next = bus::with_status_at(link, address, status);
    assert forall|i: int| 0 <= i < 16 implies (#[trigger] next.ep_in[i]).wf() by {
        assert(link.ep_in[i].wf());
    }
    assert forall|i: int| 0 <= i < 16 implies (#[trigger] next.ep_out[i]).wf() by {
        assert(link.ep_out[i].wf());
    }
    if address.inward() {
        law_in_refused(next, address.number() as u8, in_token);
    } else {
        law_out_refused(next, address.number() as u8, out_token, data);
    }
}

/// Enabling or disabling an endpoint shows at that endpoint and at no other, nor at the other
/// direction of the same number, and moves no data.
pub proof fn law_enable(
    link: LinkModel,
    address: EndpointAddress,
    enabled: bool,
    other: EndpointAddress,
)
    requires
        link.wf(),
        address.number() < 16,
        other.number() < 16,
    ensures
        ({
            let next = bus::with_enabled_at(link, address, enabled);
            &&& bus::enabled_at(next, address) == enabled
            &&& other != address ==> bus::enabled_at(next, other) == bus::enabled_at(link, other)
            &&& bus::status_at(next, other) == bus::status_at(link, other)
        }),
{
    if other != address && other.inward() == address.inward() {
        assert(other.number() != address.number());
    }
}

/// The host recovers the handshake packets from what is kept for them.
pub proof fn law_handshakes_decode(packet: Seq<u8>)
    ensures
        phy::laws::decoded(irq::handshake(packet)) == packet,
{
    phy::laws::law_decode_encoded(
        packet,
        Seq::new((8 - phy::encoded(packet).len()) as nat, |i: int| 0u8),
    );
}

/// Every packet up to the largest, 64 bytes of payload and two of CRC, fits an endpoint's
/// transmit buffer, whatever it holds.
pub proof fn law_tx_capacity(data: Seq<u8>)
    ensures
        data.len() <= MAX_PACKET_LEN ==> phy::encoded(data).len() <= TX_BUF_LEN,
{
    phy::laws::law_encoded_len(data);
}

/// A request for an endpoint is either refused or granted, and then exactly one number is
/// granted, one that was free.
pub proof fn law_allocation(used: Set<int>, requested: Option<EndpointAddress>)
    requires
        requested matches Some(addr) ==> addr.number() < 16,
    ensures
        driver::refuses(used, requested) <==> !exists|i: int| driver::grants(used, requested, i),
        forall|i: int| #[trigger] driver::grants(used, requested, i) ==> 0 <= i < 16 && !used.contains(i),
        forall|i: int, j: int|
            driver::grants(used, requested, i) && driver::grants(used, requested, j) ==> i == j,
{
    match requested {
        Some(addr) => {
            assert(driver::grants(used, requested, addr.number()) || used.contains(addr.number()));
        },
        None => {
            if !driver::refuses(used, requested) {
                let free = choose|i: int| 0 <= i < 16 && !used.contains(i);
                lemma_lowest_free(used, free);
            }
        },
    }
}

/// Below a free endpoint there is a lowest free one.
proof fn lemma_lowest_free(used: Set<int>, free: int)
    requires
        0 <= free < 16,
        !used.contains(free),
    ensures
        exists|i: int| driver::grants(used, None, i),
    decreases free,
{
    if exists|i: int| 0 <= i < free && !used.contains(i) {
        let lower = choose|i: int| 0 <= i < free && !used.contains(i);
        lemma_lowest_free(used, lower);
    } else {
        assert(driver::grants(used, None, free));
    }
}

/// No endpoint is handed out twice: a number that was granted, and endpoint 0, which is
/// taken from the start, is never granted again, however many requests come in between.
pub proof fn law_no_double_allocation(
    used: Set<int>,
    granted: int,
    later: Set<int>,
    requested: Option<EndpointAddress>,
    index: int,
)
    requires
        used.insert(granted).subset_of(later),
        driver::grants(later, requested, index),
    ensures
        index != granted,
        !used.contains(index),
{
    assert(used.insert(granted).contains(granted));
    if used.contains(index) {
        assert(used.insert(granted).contains(index));
    }
}

/// What the registers hold while an interrupt runs.
pub struct Registers {
    pub flags: u32,
    pub control: u32,
    pub remaining: u32,
    pub first_pins: u32,
    pub second_pins: u32,
}

/// What the access that the handler waits for reads.
pub open spec fn read_value(phase: IrqPhase, registers: Registers) -> u32 {
    match phase {
        IrqPhase::Flags => registers.flags,
        IrqPhase::Control => registers.control,
        IrqPhase::Remaining => registers.remaining,
        IrqPhase::FirstPins => registers.first_pins,
        IrqPhase::SecondPins => registers.second_pins,
        _ => 0,
    }
}

/// How many steps are left at most.
pub open spec fn steps_left(phase: IrqPhase) -> nat {
    match phase {
        IrqPhase::Entry => 13,
        IrqPhase::Flags => 12,
        IrqPhase::Cleared => 11,
        IrqPhase::Control => 10,
        IrqPhase::Paused => 9,
        IrqPhase::Remaining => 8,
        IrqPhase::FirstPins => 7,
        IrqPhase::Settled => 6,
        IrqPhase::SecondPins => 5,
        IrqPhase::Answer(_) => 4,
        IrqPhase::Handled => 3,
        IrqPhase::Rearmed => 2,
        IrqPhase::Finished => 1,
        IrqPhase::Over => 0,
    }
}

/// The actions that the handler takes until the interrupt is over, and the shared state
/// behind them.
pub open spec fn run(handler: PioUsbIrqHandler, link: LinkModel, registers: Registers) -> (
    Seq<IrqAction>,
    LinkModel,
)
    decreases steps_left(handler.phase),
{
    if handler.phase == IrqPhase::Over {
        (Seq::empty(), link)
    } else {
        let step = handler.step(link, read_value(handler.phase, registers));
        let rest = run(step.handler, step.link, registers);
        (seq![step.action] + rest.0, rest.1)
    }
}

/// What an interrupt does about the packet or the reset behind an end-of-packet flag.
pub open spec fn handling(link: LinkModel, registers: Registers) -> Seq<IrqAction> {
    let len = RX_DMA_LEN - registers.remaining;
    if len >= 2 {
        let response = link.response(len);
        (match response.wake {
            Some(target) => seq![IrqAction::Wake(target)],
            None => Seq::empty(),
        }) + (match response.send {
            Some(source) => seq![IrqAction::FireTx(source, link.tx_control)],
            None => Seq::empty(),
        })
    } else if !hardware::lines_low(registers.first_pins, link.line_mask) {
        seq![IrqAction::ReadPins]
    } else if !hardware::lines_low(registers.second_pins, link.line_mask) {
        seq![IrqAction::ReadPins, IrqAction::Delay(RESET_DELAY), IrqAction::ReadPins]
    } else {
        seq![
            IrqAction::ReadPins,
            IrqAction::Delay(RESET_DELAY),
            IrqAction::ReadPins,
            IrqAction::Wake(WakeTarget::Bus),
        ]
    }
}

/// The shared state after an interrupt.
pub open spec fn handled(link: LinkModel, registers: Registers) -> LinkModel {
    let len = RX_DMA_LEN - registers.remaining;
    if registers.flags & EOP_FLAG == 0 {
        link
    } else if len >= 2 {
        link.after_packet(len)
    } else if hardware::lines_low(registers.first_pins, link.line_mask) && hardware::lines_low(
        registers.second_pins,
        link.line_mask,
    ) {
        link.after_reset()
    } else {
        link
    }
}

/// How an interrupt ends.
pub open spec fn ending(flags: u32) -> Seq<IrqAction> {
    (if flags & SPARE_FLAG != 0 {
        seq![IrqAction::ClearFlags(SPARE_FLAG)]
    } else {
        Seq::empty()
    }) + seq![IrqAction::Done]
}

/// All that an interrupt does, in order.
pub open spec fn whole_interrupt(link: LinkModel, registers: Registers) -> Seq<IrqAction> {
    seq![IrqAction::ReadFlags] + (if registers.flags & EOP_FLAG != 0 {
        seq![
            IrqAction::ClearFlags(EOP_FLAG),
            IrqAction::ReadRxControl,
            IrqAction::WriteRxControl(registers.control & !DMA_ENABLE),
            IrqAction::ReadRxRemaining,
        ] + handling(link, registers) + seq![IrqAction::RearmRx(RX_DMA_LEN, link.rx_control)]
    } else {
        Seq::empty()
    }) + ending(registers.flags)
}

/// Where the step ends the interrupt or clears the spare flag, nothing else follows.
proof fn lemma_run_finish(handler: PioUsbIrqHandler, link: LinkModel, registers: Registers)
    ensures
        ({
            let step = handler.finish(link);
            let rest = run(step.handler, step.link, registers);
            &&& seq![step.action] + rest.0 == ending(handler.flags)
            &&& rest.1 == link
        }),
{
    reveal_with_fuel(run, 3);
    let step = handler.finish(link);
    let rest = run(step.handler, step.link, registers);
    assert(seq![step.action] + rest.0 =~= ending(handler.flags));
}

/// Behind the step that starts the receive DMA again, the interrupt ends.
proof fn lemma_run_rearm(handler: PioUsbIrqHandler, link: LinkModel, registers: Registers)
    ensures
        ({
            let step = handler.rearm(link);
            let rest = run(step.handler, step.link, registers);
            &&& seq![step.action] + rest.0 == seq![IrqAction::RearmRx(RX_DMA_LEN, link.rx_control)]
                + ending(handler.flags)
            &&& rest.1 == link
        }),
{
    lemma_run_finish(handler.at(IrqPhase::Rearmed), link, registers);
}

/// An answer is sent before the receive DMA is started again.
proof fn lemma_run_answer(
    handler: PioUsbIrqHandler,
    link: LinkModel,
    send: Option<TxSource>,
    registers: Registers,
)
    ensures
        ({
            let step = handler.answer(link, send);
            let rest = run(step.handler, step.link, registers);
            &&& seq![step.action] + rest.0 == (match send {
                Some(source) => seq![IrqAction::FireTx(source, link.tx_control)],
                None => Seq::empty(),
            }) + seq![IrqAction::RearmRx(RX_DMA_LEN, link.rx_control)] + ending(handler.flags)
            &&& rest.1 == link
        }),
{
    match send {
        Some(source) => {
            lemma_run_rearm(handler.at(IrqPhase::Handled), link, registers);
            let step = handler.answer(link, send);
            let rest = run(step.handler, step.link, registers);
            assert(seq![step.action] + rest.0 =~= seq![IrqAction::FireTx(source, link.tx_control)]
                + seq![IrqAction::RearmRx(RX_DMA_LEN, link.rx_control)] + ending(handler.flags));
        },
        None => {
            lemma_run_rearm(handler, link, registers);
            assert(Seq::<IrqAction>::empty() + seq![
                IrqAction::RearmRx(RX_DMA_LEN, link.rx_control),
            ] =~= seq![IrqAction::RearmRx(RX_DMA_LEN, link.rx_control)]);
        },
    }
}

/// From the transfer count on, the interrupt handles the packet or the reset and ends.
proof fn lemma_run_remaining(handler: PioUsbIrqHandler, link: LinkModel, registers: Registers)
    requires
        handler.phase == IrqPhase::Remaining,
        registers.flags & EOP_FLAG != 0,
    ensures
        run(handler, link, registers).0 == handling(link, registers) + seq![
            IrqAction::RearmRx(RX_DMA_LEN, link.rx_control),
        ] + ending(handler.flags),
        run(handler, link, registers).1 == handled(link, registers),
{
    let len = RX_DMA_LEN - registers.remaining;
    let finish = seq![IrqAction::RearmRx(RX_DMA_LEN, link.rx_control)] + ending(handler.flags);
    if len >= 2 {
        let response = link.response(len);
        let next = link.after_packet(len);
        match response.wake {
            Some(target) => {
                let waked = handler.at(IrqPhase::Answer(response.send));
                lemma_run_answer(waked, next, response.send, registers);
                assert(run(handler, link, registers).0 =~= seq![IrqAction::Wake(target)] + run(
                    waked,
                    next,
                    registers,
                ).0);
                assert(run(handler, link, registers).0 =~= handling(link, registers) + finish);
            },
            None => {
                lemma_run_answer(handler, next, response.send, registers);
                assert(run(handler, link, registers).0 =~= handling(link, registers) + finish);
            },
        }
    } else {
        let first = handler.at(IrqPhase::FirstPins);
        if hardware::lines_low(registers.first_pins, link.line_mask) {
            let settled = handler.at(IrqPhase::Settled);
            let second = handler.at(IrqPhase::SecondPins);
            if hardware::lines_low(registers.second_pins, link.line_mask) {
                lemma_run_rearm(handler.at(IrqPhase::Handled), link.after_reset(), registers);
                assert(run(handler.at(IrqPhase::Handled), link.after_reset(), registers).0 == finish);
                assert(run(second, link, registers).0 =~= seq![IrqAction::Wake(WakeTarget::Bus)]
                    + finish);
            } else {
                lemma_run_rearm(second, link, registers);
                assert(run(second, link, registers).0 == finish);
            }
            assert(run(settled, link, registers).0 =~= seq![IrqAction::ReadPins] + run(
                second,
                link,
                registers,
            ).0);
            assert(run(first, link, registers).0 =~= seq![IrqAction::Delay(RESET_DELAY)] + run(
                settled,
                link,
                registers,
            ).0);
        } else {
            lemma_run_rearm(first, link, registers);
            assert(run(first, link, registers).0 == finish);
        }
        assert(run(handler, link, registers).0 =~= seq![IrqAction::ReadPins] + run(
            first,
            link,
            registers,
        ).0);
        assert(run(handler, link, registers).0 =~= handling(link, registers) + finish);
    }
    assert(handling(link, registers) + finish =~= handling(link, registers) + seq![
        IrqAction::RearmRx(RX_DMA_LEN, link.rx_control),
    ] + ending(handler.flags));
}

/// Every interrupt comes to an end. Behind an end-of-packet flag it pauses the receive DMA,
/// answers the packet or, where hardly anything was received and both lines stay low,
/// resets the bus, and always starts the receive DMA again; it clears the flags that were
/// raised and no others.
pub proof fn law_interrupt(link: LinkModel, registers: Registers)
    ensures
        run(PioUsbIrqHandler { phase: IrqPhase::Entry, flags: 0 }, link, registers).0
            == whole_interrupt(link, registers),
        run(PioUsbIrqHandler { phase: IrqPhase::Entry, flags: 0 }, link, registers).1 == handled(
            link,
            registers,
        ),
{
    let entry = PioUsbIrqHandler { phase: IrqPhase::Entry, flags: 0 };
    let told = PioUsbIrqHandler { phase: IrqPhase::Flags, flags: registers.flags };
    if registers.flags & EOP_FLAG != 0 {
        let cleared = told.at(IrqPhase::Cleared);
        let control = told.at(IrqPhase::Control);
        let paused = told.at(IrqPhase::Paused);
        let remaining = told.at(IrqPhase::Remaining);
        lemma_run_remaining(remaining, link, registers);
        let end = run(remaining, link, registers).0;
        assert(run(paused, link, registers).0 == seq![IrqAction::ReadRxRemaining] + end);
        assert(run(control, link, registers).0 == seq![
            IrqAction::WriteRxControl(registers.control & !DMA_ENABLE),
        ] + run(paused, link, registers).0);
        assert(run(cleared, link, registers).0 == seq![IrqAction::ReadRxControl] + run(
            control,
            link,
            registers,
        ).0);
        assert(run(entry.at(IrqPhase::Flags), link, registers).0 == seq![
            IrqAction::ClearFlags(EOP_FLAG),
        ] + run(cleared, link, registers).0);
    } else {
        lemma_run_finish(told, link, registers);
        assert(run(entry.at(IrqPhase::Flags), link, registers).0 == ending(registers.flags));
    }
    assert(run(entry, link, registers).0 == seq![IrqAction::ReadFlags] + run(
        entry.at(IrqPhase::Flags),
        link,
        registers,
    ).0);
    assert(run(entry, link, registers).0 =~= whole_interrupt(link, registers));
}

/// The endpoint that an action names, where it names one, is one of the sixteen.
pub open spec fn names_known_endpoint(action: IrqAction) -> bool {
    match action {
        IrqAction::FireTx(TxSource::Endpoint(ep), _) => ep < 16,
        IrqAction::Wake(WakeTarget::In(ep)) => ep < 16,
        IrqAction::Wake(WakeTarget::Out(ep)) => ep < 16,
        _ => true,
    }
}

/// From a valid state, an interrupt sends for and wakes none but the sixteen endpoints.
pub proof fn law_interrupt_endpoints(link: LinkModel, registers: Registers, i: int)
    requires
        link.wf(),
        0 <= i < whole_interrupt(link, registers).len(),
    ensures
        names_known_endpoint(whole_interrupt(link, registers)[i]),
{
    let middle = handling(link, registers);
    assert forall|k: int| 0 <= k < middle.len() implies names_known_endpoint(
        #[trigger] middle[k],
    ) by {}
    if registers.flags & EOP_FLAG != 0 && 5 <= i < 5 + middle.len() {
        assert(whole_interrupt(link, registers)[i] == middle[i - 5]);
    }
}

} // verus!
