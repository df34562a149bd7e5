use pio_usb::driver::address::EndpointAddress;
use pio_usb::driver::bus::{PioUsbBus, Unsupported};
use pio_usb::driver::control::PioControlPipe;
use pio_usb::driver::endpoint::{
    EndpointState, EndpointStatus, EndpointType, PioEndpointIn, PioEndpointOut, Poll,
};
use pio_usb::driver::irq::{Event, Packet, Response, TxSource, UsbIrqState, WakeTarget};
use pio_usb::driver::EndpointAllocError;
use pio_usb::phy::encode_tx_data;
use pio_usb::{PioUsbDriver, PioUsbHardware};

fn driver() -> PioUsbDriver {
    PioUsbDriver::new(PioUsbHardware::new().configure(16, 17))
}

fn started() -> (PioUsbBus, PioControlPipe, UsbIrqState) {
    let (bus, control, plan) = driver().start(64, true, 0, 1);
    (bus, control, plan.state)
}

fn at(index: u8) -> Option<EndpointAddress> {
    Some(EndpointAddress { raw: index })
}

fn endpoint_in(index: u8) -> PioEndpointIn {
    let granted = driver().alloc_endpoint_in(EndpointType::Bulk, at(index), 64, 0);
    granted.unwrap_or_else(|_| panic!("endpoint {} is taken", index))
}

fn endpoint_out(index: u8) -> PioEndpointOut {
    let granted = driver().alloc_endpoint_out(EndpointType::Bulk, at(index), 64, 0);
    granted.unwrap_or_else(|_| panic!("endpoint {} is taken", index))
}

fn pid(pid: u8) -> u8 {
    pid | ((!pid & 0x0f) << 4)
}

fn token(kind: u8, ep: u8) -> Vec<u8> {
    let field = (5u16) | ((ep as u16) << 7);
    vec![0x80, pid(kind), field as u8, (field >> 8) as u8]
}

fn data(payload: &[u8]) -> Vec<u8> {
    let mut packet = vec![0x80, pid(0x03)];
    packet.extend_from_slice(payload);
    packet.extend_from_slice(&[0x12, 0x34]);
    packet
}

const SETUP: u8 = 0x0d;
const OUT: u8 = 0x01;
const IN: u8 = 0x09;
const ACK: [u8; 2] = [0x80, 0xd2];

const QUIET: Response = Response { wake: None, send: None };

fn hear(state: &mut UsbIrqState, packet: &[u8]) -> Response {
    state.rx_dma_buf[..packet.len()].copy_from_slice(packet);
    assert!(state.packet_fits(packet.len()));
    state.on_packet(packet.len())
}

fn send(source: TxSource) -> Response {
    Response { wake: None, send: Some(source) }
}

#[test]
fn endpoints_are_allocated_from_one_upwards() {
    let mut driver = driver();
    for expected in 1..16 {
        let ep = driver.alloc_endpoint_in(EndpointType::Interrupt, None, 8, 10);
        let ep = ep.unwrap_or_else(|_| panic!("none left"));
        assert_eq!(ep.info().addr, EndpointAddress { raw: 0x80 | expected });
        assert_eq!(ep.info().ep_type, EndpointType::Interrupt);
        assert_eq!(ep.info().max_packet_size, 8);
        assert_eq!(ep.info().interval_ms, 10);
    }
    let refused = driver.alloc_endpoint_in(EndpointType::Bulk, None, 64, 0);
    assert_eq!(refused.err(), Some(EndpointAllocError));
    let other = driver.alloc_endpoint_out(EndpointType::Bulk, None, 64, 0);
    assert_eq!(other.ok().map(|ep| ep.info().addr), at(1));
}

#[test]
fn endpoint_zero_is_reserved() {
    let mut driver = driver();
    assert!(driver.alloc_endpoint_in(EndpointType::Control, at(0x80), 64, 0).is_err());
    assert!(driver.alloc_endpoint_out(EndpointType::Control, at(0), 64, 0).is_err());
}

#[test]
fn no_endpoint_is_handed_out_twice() {
    let mut driver = driver();
    assert!(driver.alloc_endpoint_out(EndpointType::Bulk, at(2), 64, 0).is_ok());
    assert!(driver.alloc_endpoint_out(EndpointType::Bulk, at(2), 64, 0).is_err());
    let next = driver.alloc_endpoint_out(EndpointType::Bulk, None, 64, 0);
    assert_eq!(next.ok().map(|ep| ep.info().addr), at(1));
    let next = driver.alloc_endpoint_out(EndpointType::Bulk, None, 64, 0);
    assert_eq!(next.ok().map(|ep| ep.info().addr), at(3));
    assert!(driver.alloc_endpoint_in(EndpointType::Bulk, at(2), 64, 0).is_ok());
    assert!(driver.alloc_endpoint_in(EndpointType::Bulk, at(15), 64, 0).is_ok());
    assert!(driver.alloc_endpoint_in(EndpointType::Bulk, at(15), 64, 0).is_err());
}

#[test]
fn a_requested_number_takes_the_allocating_direction() {
    assert_eq!(endpoint_in(4).info().addr, EndpointAddress { raw: 0x84 });
    let granted = driver().alloc_endpoint_out(EndpointType::Bulk, at(0x84), 64, 0);
    assert_eq!(granted.ok().map(|ep| ep.info().addr), at(4));
}

#[test]
fn start_prepares_the_shared_state() {
    let (bus, _control, plan) = driver().start(64, false, 2, 3);
    assert_eq!((bus._hw.dp_pin, bus._hw.dm_pin), (16, 17));
    assert_eq!(plan.fill_osr, 0xa0eb);
    assert_eq!(plan.clear_x, 0xa023);
    assert_eq!(plan.rx_count, 128);
    let state = plan.state;
    assert_eq!(state.encoded_ack, [0xdd, 0xdf, 0x5d, 0x7f, 0x25, 0, 0, 0]);
    assert_eq!(state.encoded_nak, [0xdd, 0xdf, 0x5f, 0xd7, 0x25, 0, 0, 0]);
    assert_eq!(state.encoded_stall, [0xdd, 0xdf, 0x55, 0x77, 0x25, 0, 0, 0]);
    assert_eq!(state.tx_dma_ctrl_word, 0x0005_0011);
    assert_eq!(state.rx_dma_ctrl_word, 0x0007_8021);
    assert_eq!(state.dp_dm_mask, 0x0003_0000);
    assert_eq!(state.rx_dma_buf, [0; 128]);
    assert_eq!(state.bus_event, None);
    assert_eq!(state.expect_data, None);
    assert_eq!(state.last_tx_ep, None);
    for ep in state.ep_in_states.iter().chain(state.ep_out_states.iter()) {
        assert!(!ep.enabled);
        assert_eq!(ep.status, EndpointStatus::Idle);
        assert_eq!((ep.rx_len, ep.tx_encoded_len), (0, 0));
    }
}

#[test]
fn a_fresh_endpoint_is_empty() {
    let ep = EndpointState::new();
    assert_eq!(ep.rx_buf, [0; 64]);
    assert_eq!(ep.tx_encoded_buf, [0; 156]);
    assert_eq!(ep.status, EndpointStatus::Idle);
    assert!(!ep.enabled);
    assert_eq!(ep.is_enabled(), Poll::Pending);
}

#[test]
fn packets_are_told_apart() {
    let (_, _, mut state) = started();
    for ep in 0..16u8 {
        for (kind, packet) in
            [(SETUP, Packet::Setup(ep)), (OUT, Packet::Out(ep)), (IN, Packet::In(ep))]
        {
            state.rx_dma_buf[..4].copy_from_slice(&token(kind, ep));
            assert_eq!(state.packet(4), packet);
            assert_eq!(state.packet(3), Packet::Other);
        }
    }
    for (byte, packet) in [
        (pid(0x03), Packet::Data),
        (pid(0x0b), Packet::Data),
        (pid(0x02), Packet::Ack),
        (pid(0x05), Packet::Other),
        (pid(0x0a), Packet::Other),
        (0x00, Packet::Other),
        (0xff, Packet::Other),
        (0xd3, Packet::Other),
    ] {
        state.rx_dma_buf[1] = byte;
        assert_eq!(state.packet(2), packet);
    }
}

#[test]
fn in_transfer_sends_what_was_written() {
    let (_, _, mut state) = started();
    let ep = endpoint_in(3);
    let mut state2 = started().2;
    ep.write(&mut state, &[0x80, 0xC3, 0x12, 0x01]);
    assert_eq!(ep.poll_write(&state), Poll::Pending);
    assert_eq!(hear(&mut state, &token(IN, 3)), send(TxSource::Endpoint(3)));
    assert_eq!(
        state.transmission(TxSource::Endpoint(3)),
        &[0xdd, 0xdf, 0xf7, 0x7f, 0x5d, 0x77, 0xdd, 0xdd, 0x25]
    );
    assert_eq!(state.last_tx_ep, Some(3));
    assert_eq!(ep.poll_write(&state), Poll::Pending);
    let acked = hear(&mut state, &ACK);
    assert_eq!(acked, Response { wake: Some(WakeTarget::In(3)), send: None });
    assert_eq!(ep.poll_write(&state), Poll::Ready(Ok(())));
    assert_eq!(hear(&mut state, &token(IN, 3)), send(TxSource::Nak));
    assert_eq!(hear(&mut state2, &token(IN, 3)), send(TxSource::Nak));
}

#[test]
fn the_largest_packet_can_be_written() {
    for byte in [0x00u8, 0x55, 0x7e, 0xff] {
        for len in 0..=66 {
            let packet = vec![byte; len];
            let mut expected = vec![0u8; 256];
            let written = encode_tx_data(&packet, &mut expected);
            let (_, control, mut state) = started();
            let ep = endpoint_in(3);
            ep.write(&mut state, &packet);
            assert_eq!(hear(&mut state, &token(IN, 3)), send(TxSource::Endpoint(3)));
            assert_eq!(state.transmission(TxSource::Endpoint(3)), &expected[..written]);
            control.data_in(&mut state, &packet, true, true);
            assert_eq!(hear(&mut state, &token(IN, 0)), send(TxSource::Endpoint(0)));
            assert_eq!(state.transmission(TxSource::Endpoint(0)), &expected[..written]);
        }
    }
}

#[test]
fn an_unacknowledged_packet_is_sent_again() {
    let (_, _, mut state) = started();
    let ep = endpoint_in(1);
    ep.write(&mut state, &[0xff, 0xff]);
    for _ in 0..3 {
        assert_eq!(hear(&mut state, &token(IN, 1)), send(TxSource::Endpoint(1)));
        let bytes = state.transmission(TxSource::Endpoint(1));
        assert_eq!(bytes, &[0x55, 0x5f, 0xff, 0xd5, 0x52]);
    }
}

#[test]
fn a_second_acknowledgement_is_ignored() {
    let (_, _, mut state) = started();
    let ep = endpoint_in(1);
    ep.write(&mut state, &[1]);
    hear(&mut state, &token(IN, 1));
    hear(&mut state, &ACK);
    ep.write(&mut state, &[2]);
    assert_eq!(hear(&mut state, &ACK), QUIET);
    assert_eq!(ep.poll_write(&state), Poll::Pending);
}

#[test]
fn out_transfer_delivers_the_payload() {
    let (_, _, mut state) = started();
    let ep = endpoint_out(2);
    ep.read(&mut state);
    let mut buf = [0xeeu8; 8];
    assert_eq!(ep.poll_read(&state, &mut buf), Poll::Pending);
    assert_eq!(buf, [0xee; 8]);
    assert_eq!(hear(&mut state, &token(OUT, 2)), QUIET);
    let taken = hear(&mut state, &data(&[1, 2, 3, 4, 5]));
    assert_eq!(
        taken,
        Response { wake: Some(WakeTarget::Out(2)), send: Some(TxSource::Ack) }
    );
    assert_eq!(state.transmission(TxSource::Ack), &[0xdd, 0xdf, 0x5d, 0x7f, 0x25, 0, 0, 0]);
    assert_eq!(ep.poll_read(&state, &mut buf), Poll::Ready(Ok(5)));
    assert_eq!(buf, [1, 2, 3, 4, 5, 0xee, 0xee, 0xee]);
    assert_eq!(state.expect_data, None);
}

#[test]
fn out_transfer_of_the_largest_payload() {
    let (_, _, mut state) = started();
    let ep = endpoint_out(2);
    ep.read(&mut state);
    hear(&mut state, &token(OUT, 2));
    let payload: Vec<u8> = (0..64).collect();
    hear(&mut state, &data(&payload));
    let mut buf = [0u8; 64];
    assert_eq!(ep.poll_read(&state, &mut buf), Poll::Ready(Ok(64)));
    assert_eq!(&buf[..], &payload[..]);
}

#[test]
fn a_payload_that_is_too_long_does_not_fit() {
    let (_, _, mut state) = started();
    let ep = endpoint_out(2);
    let packet = data(&[0; 65]);
    hear(&mut state, &token(OUT, 2));
    state.rx_dma_buf[..packet.len()].copy_from_slice(&packet);
    assert!(state.packet_fits(packet.len()));
    ep.read(&mut state);
    assert!(!state.packet_fits(packet.len()));
    assert!(!state.packet_fits(1));
    assert!(!state.packet_fits(129));
}

#[test]
fn an_empty_data_packet_is_delivered() {
    let (_, _, mut state) = started();
    let ep = endpoint_out(2);
    ep.read(&mut state);
    hear(&mut state, &token(OUT, 2));
    assert_eq!(hear(&mut state, &data(&[])).send, Some(TxSource::Ack));
    assert_eq!(ep.poll_read(&state, &mut []), Poll::Ready(Ok(0)));
}

#[test]
fn a_data_packet_cut_short_is_dropped() {
    let (_, _, mut state) = started();
    let ep = endpoint_out(2);
    ep.read(&mut state);
    hear(&mut state, &token(OUT, 2));
    assert_eq!(hear(&mut state, &[0x80, pid(0x0b), 0x00]), QUIET);
    assert_eq!(state.expect_data, None);
    assert_eq!(ep.poll_read(&state, &mut []), Poll::Pending);
}

#[test]
fn data_nobody_waits_for_are_refused() {
    let (_, _, mut state) = started();
    hear(&mut state, &token(OUT, 5));
    assert_eq!(hear(&mut state, &data(&[1, 2])), send(TxSource::Nak));
    assert_eq!(state.ep_out_states[5].rx_len, 0);
    assert_eq!(state.ep_out_states[5].rx_buf, [0; 64]);
}

#[test]
fn data_without_a_token_are_ignored() {
    let (_, _, mut state) = started();
    let ep = endpoint_out(2);
    ep.read(&mut state);
    assert_eq!(hear(&mut state, &data(&[1])), QUIET);
    hear(&mut state, &token(OUT, 2));
    hear(&mut state, &data(&[1]));
    ep.read(&mut state);
    assert_eq!(hear(&mut state, &data(&[2])), QUIET);
    assert_eq!(ep.poll_read(&state, &mut []), Poll::Pending);
}

#[test]
fn damaged_packets_are_ignored() {
    let (_, _, mut state) = started();
    let ep = endpoint_in(1);
    ep.write(&mut state, &[1]);
    let mut packet = token(IN, 1);
    packet[1] ^= 0x10;
    assert_eq!(hear(&mut state, &packet), QUIET);
    assert_eq!(state.last_tx_ep, None);
}

#[test]
fn setup_packets_reach_the_control_pipe() {
    let (_, control, mut state) = started();
    assert_eq!(control.max_packet_size(), 64);
    assert_eq!(control.setup(&mut state), Poll::Pending);
    let request = [0x80, 0x06, 0x00, 0x01, 0x00, 0x00, 0x40, 0x00];
    assert_eq!(hear(&mut state, &token(SETUP, 0)), QUIET);
    assert_eq!(state.expect_data, Some((0, true)));
    let taken = hear(&mut state, &data(&request));
    assert_eq!(
        taken,
        Response { wake: Some(WakeTarget::Out(0)), send: Some(TxSource::Ack) }
    );
    assert_eq!(state.ep_out_states[0].status, EndpointStatus::SetupReceived);
    assert_eq!(control.setup(&mut state), Poll::Ready(request));
    assert_eq!(control.setup(&mut state), Poll::Pending);
    assert_eq!(state.ep_out_states[0].status, EndpointStatus::Idle);
}

#[test]
fn setup_packets_are_taken_by_a_stalled_pipe() {
    let (_, control, mut state) = started();
    control.reject(&mut state);
    hear(&mut state, &token(SETUP, 0));
    let taken = hear(&mut state, &data(&[9; 8]));
    assert_eq!(taken.send, Some(TxSource::Ack));
    assert_eq!(control.setup(&mut state), Poll::Ready([9; 8]));
}

#[test]
fn control_data_travel_both_ways() {
    let (_, control, mut state) = started();
    control.data_out(&mut state, true, true);
    let mut buf = [0u8; 4];
    assert_eq!(control.poll_data_out(&state, &mut buf), Poll::Pending);
    hear(&mut state, &token(OUT, 0));
    hear(&mut state, &data(&[7, 8, 9]));
    assert_eq!(control.poll_data_out(&state, &mut buf), Poll::Ready(Ok(3)));
    assert_eq!(buf, [7, 8, 9, 0]);
    control.data_in(&mut state, &[0xff], true, true);
    assert_eq!(control.poll_data_in(&state), Poll::Pending);
    assert_eq!(hear(&mut state, &token(IN, 0)), send(TxSource::Endpoint(0)));
    assert_eq!(state.transmission(TxSource::Endpoint(0)), &[0x55, 0x5f, 0xc9]);
    hear(&mut state, &ACK);
    assert_eq!(control.poll_data_in(&state), Poll::Ready(Ok(())));
}

#[test]
fn accept_sends_an_empty_packet() {
    let (_, control, mut state) = started();
    control.accept(&mut state);
    assert_eq!(hear(&mut state, &token(IN, 0)), send(TxSource::Endpoint(0)));
    assert_eq!(state.transmission(TxSource::Endpoint(0)), &[0x25]);
    control.accept_set_address(&mut state, 5);
    assert_eq!(state.ep_in_states[0].status, EndpointStatus::TxReady);
}

#[test]
fn reject_stalls_both_directions() {
    let (_, control, mut state) = started();
    control.reject(&mut state);
    assert_eq!(hear(&mut state, &token(IN, 0)), send(TxSource::Stall));
    hear(&mut state, &token(OUT, 0));
    assert_eq!(hear(&mut state, &data(&[1])), send(TxSource::Stall));
    assert_eq!(state.transmission(TxSource::Stall), &[0xdd, 0xdf, 0x55, 0x77, 0x25, 0, 0, 0]);
}

#[test]
fn stalling_an_endpoint() {
    let (bus, _, mut state) = started();
    let inward = EndpointAddress { raw: 0x84 };
    let outward = EndpointAddress { raw: 0x04 };
    bus.endpoint_set_stalled(&mut state, inward, true);
    assert!(bus.endpoint_is_stalled(&state, inward));
    assert!(!bus.endpoint_is_stalled(&state, outward));
    assert_eq!(hear(&mut state, &token(IN, 4)), send(TxSource::Stall));
    hear(&mut state, &token(OUT, 4));
    assert_eq!(hear(&mut state, &data(&[1])), send(TxSource::Nak));
    bus.endpoint_set_stalled(&mut state, outward, true);
    hear(&mut state, &token(OUT, 4));
    assert_eq!(hear(&mut state, &data(&[1])), send(TxSource::Stall));
    bus.endpoint_set_stalled(&mut state, inward, false);
    assert!(!bus.endpoint_is_stalled(&state, inward));
    assert!(bus.endpoint_is_stalled(&state, outward));
    assert_eq!(hear(&mut state, &token(IN, 4)), send(TxSource::Nak));
    assert_eq!(state.transmission(TxSource::Nak), &[0xdd, 0xdf, 0x5f, 0xd7, 0x25, 0, 0, 0]);
}

#[test]
fn enabling_an_endpoint() {
    let (bus, _, mut state) = started();
    let inward = endpoint_in(6);
    let outward = endpoint_out(6);
    assert_eq!(inward.wait_enabled(&state), Poll::Pending);
    let woken = bus.endpoint_set_enabled(&mut state, inward.info().addr, true);
    assert_eq!(woken, Some(WakeTarget::In(6)));
    assert_eq!(inward.wait_enabled(&state), Poll::Ready(()));
    assert_eq!(outward.wait_enabled(&state), Poll::Pending);
    let woken = bus.endpoint_set_enabled(&mut state, outward.info().addr, true);
    assert_eq!(woken, Some(WakeTarget::Out(6)));
    assert_eq!(outward.wait_enabled(&state), Poll::Ready(()));
    assert_eq!(bus.endpoint_set_enabled(&mut state, inward.info().addr, false), None);
    assert_eq!(inward.wait_enabled(&state), Poll::Pending);
}

#[test]
fn a_reset_disables_everything_and_is_polled_once() {
    let (bus, control, mut state) = started();
    assert_eq!(bus.poll(&mut state), Poll::Pending);
    let ep = endpoint_in(1);
    bus.endpoint_set_enabled(&mut state, ep.info().addr, true);
    ep.write(&mut state, &[1]);
    control.reject(&mut state);
    state.bus_reset();
    assert_eq!(ep.wait_enabled(&state), Poll::Pending);
    assert_eq!(hear(&mut state, &token(IN, 1)), send(TxSource::Nak));
    assert_eq!(hear(&mut state, &token(IN, 0)), send(TxSource::Nak));
    hear(&mut state, &token(OUT, 0));
    assert_eq!(hear(&mut state, &data(&[1])), send(TxSource::Nak));
    assert_eq!(bus.poll(&mut state), Poll::Ready(Event::Reset));
    assert_eq!(bus.poll(&mut state), Poll::Pending);
}

#[test]
fn remote_wakeup_is_unsupported() {
    let (bus, _, _) = started();
    assert_eq!(bus.remote_wakeup(), Err(Unsupported));
}

#[test]
fn a_packet_concerns_one_endpoint() {
    let (_, _, mut state) = started();
    for ep in 1..16u8 {
        endpoint_out(ep).read(&mut state);
        endpoint_in(ep).write(&mut state, &[ep]);
    }
    hear(&mut state, &token(OUT, 7));
    hear(&mut state, &data(&[42]));
    hear(&mut state, &token(IN, 9));
    hear(&mut state, &ACK);
    for ep in 1..16usize {
        let out = state.ep_out_states[ep].status;
        let inn = state.ep_in_states[ep].status;
        assert_eq!(out == EndpointStatus::Idle, ep == 7);
        assert_eq!(inn == EndpointStatus::Idle, ep == 9);
    }
}

#[test]
fn every_token_names_one_of_sixteen_endpoints() {
    let (_, _, mut state) = started();
    for low in 0..=255u8 {
        for high in 0..=255u8 {
            state.rx_dma_buf[..4].copy_from_slice(&[0x80, pid(IN), low, high]);
            match state.packet(4) {
                Packet::In(ep) => assert!(ep < 16),
                other => panic!("{:?}", other),
            }
        }
    }
}
