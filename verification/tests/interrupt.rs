use pio_usb::driver::endpoint::EndpointStatus;
use pio_usb::driver::interrupt::{IrqAction, IrqPhase, PioUsbIrqHandler};
use pio_usb::driver::irq::{Event, TxSource, UsbIrqState, WakeTarget};
use pio_usb::{PioUsbDriver, PioUsbHardware};

fn state() -> UsbIrqState {
    let hardware = PioUsbHardware::new().configure(0, 1);
    PioUsbDriver::new(hardware).start(64, true, 0, 1).2.state
}

fn run(
    state: &mut UsbIrqState,
    flags: u32,
    control: u32,
    remaining: u32,
    pins: [u32; 2],
) -> Vec<IrqAction> {
    let mut handler = PioUsbIrqHandler::new();
    let mut actions = Vec::new();
    let mut input = 0;
    let mut pin_reads = 0;
    loop {
        assert!(handler.can_continue(state, input));
        let action = handler.on_interrupt(state, input);
        actions.push(action);
        input = match action {
            IrqAction::ReadFlags => flags,
            IrqAction::ReadRxControl => control,
            IrqAction::ReadRxRemaining => remaining,
            IrqAction::ReadPins => {
                pin_reads += 1;
                pins[pin_reads - 1]
            }
            IrqAction::Done => return actions,
            _ => 0xdead_beef,
        };
    }
}

const PAUSE: [IrqAction; 5] = [
    IrqAction::ReadFlags,
    IrqAction::ClearFlags(4),
    IrqAction::ReadRxControl,
    IrqAction::WriteRxControl(0x00ff_fffe),
    IrqAction::ReadRxRemaining,
];

const REARM: [IrqAction; 2] = [IrqAction::RearmRx(128, 0x0002_8021), IrqAction::Done];

fn around(middle: &[IrqAction]) -> Vec<IrqAction> {
    let mut all = PAUSE.to_vec();
    all.extend_from_slice(middle);
    all.extend_from_slice(&REARM);
    all
}

#[test]
fn an_interrupt_without_flags_does_nothing() {
    let mut state = state();
    let actions = run(&mut state, 0xffff_fff3, 0, 0, [0, 0]);
    assert_eq!(actions, vec![IrqAction::ReadFlags, IrqAction::Done]);
}

#[test]
fn the_spare_flag_is_cleared() {
    let mut state = state();
    let actions = run(&mut state, 8, 0, 0, [0, 0]);
    assert_eq!(
        actions,
        vec![IrqAction::ReadFlags, IrqAction::ClearFlags(8), IrqAction::Done]
    );
    state.rx_dma_buf[1] = 0x5a;
    let actions = run(&mut state, 12, 0x00ff_ffff, 126, [0, 0]);
    assert_eq!(
        actions[5..],
        [IrqAction::RearmRx(128, 0x0002_8021), IrqAction::ClearFlags(8), IrqAction::Done]
    );
}

#[test]
fn a_silent_packet_only_rearms() {
    let mut state = state();
    state.rx_dma_buf[..4].copy_from_slice(&[0x80, 0xe1, 0x05, 0x01]);
    let actions = run(&mut state, 4, 0x00ff_ffff, 124, [0, 0]);
    assert_eq!(actions, around(&[]));
    assert_eq!(state.expect_data, Some((2, false)));
}

#[test]
fn an_in_token_is_answered() {
    let mut state = state();
    state.rx_dma_buf[..4].copy_from_slice(&[0x80, 0x69, 0x85, 0x00]);
    let actions = run(&mut state, 4, 0x00ff_ffff, 124, [0, 0]);
    assert_eq!(actions, around(&[IrqAction::FireTx(TxSource::Nak, 0x11)]));
    state.ep_in_states[1].status = EndpointStatus::TxReady;
    let actions = run(&mut state, 4, 0x00ff_ffff, 124, [0, 0]);
    assert_eq!(actions, around(&[IrqAction::FireTx(TxSource::Endpoint(1), 0x11)]));
}

#[test]
fn data_wake_the_task_and_are_acknowledged() {
    let mut state = state();
    state.expect_data = Some((3, false));
    state.ep_out_states[3].status = EndpointStatus::RxReady;
    state.rx_dma_buf[..6].copy_from_slice(&[0x80, 0x4b, 0x11, 0x22, 0x33, 0x44]);
    let actions = run(&mut state, 4, 0x00ff_ffff, 122, [0, 0]);
    assert_eq!(
        actions,
        around(&[
            IrqAction::Wake(WakeTarget::Out(3)),
            IrqAction::FireTx(TxSource::Ack, 0x11),
        ])
    );
    assert_eq!(state.ep_out_states[3].rx_len, 2);
    assert_eq!(state.ep_out_states[3].rx_buf[..2], [0x11, 0x22]);
}

#[test]
fn an_acknowledgement_wakes_the_task() {
    let mut state = state();
    state.last_tx_ep = Some(2);
    state.rx_dma_buf[1] = 0xd2;
    let actions = run(&mut state, 4, 0x00ff_ffff, 126, [0, 0]);
    assert_eq!(actions, around(&[IrqAction::Wake(WakeTarget::In(2))]));
}

#[test]
fn lines_that_stay_low_reset_the_bus() {
    let mut state = state();
    state.ep_in_states[4].enabled = true;
    let actions = run(&mut state, 4, 0x00ff_ffff, 127, [0xffff_fffc, 0xf0]);
    assert_eq!(
        actions,
        around(&[
            IrqAction::ReadPins,
            IrqAction::Delay(400),
            IrqAction::ReadPins,
            IrqAction::Wake(WakeTarget::Bus),
        ])
    );
    assert_eq!(state.bus_event, Some(Event::Reset));
    assert!(!state.ep_in_states[4].enabled);
}

#[test]
fn lines_that_rise_again_do_not_reset_the_bus() {
    let mut state = state();
    let actions = run(&mut state, 4, 0x00ff_ffff, 128, [0, 2]);
    assert_eq!(
        actions,
        around(&[IrqAction::ReadPins, IrqAction::Delay(400), IrqAction::ReadPins])
    );
    let actions = run(&mut state, 4, 0x00ff_ffff, 128, [1, 0]);
    assert_eq!(actions, around(&[IrqAction::ReadPins]));
    assert_eq!(state.bus_event, None);
}

#[test]
fn an_interrupt_names_none_but_the_sixteen_endpoints() {
    let named = |actions: &[IrqAction]| -> Vec<u8> {
        let mut endpoints = Vec::new();
        for action in actions {
            match action {
                IrqAction::FireTx(TxSource::Endpoint(ep), _) => endpoints.push(*ep),
                IrqAction::Wake(WakeTarget::In(ep)) => endpoints.push(*ep),
                IrqAction::Wake(WakeTarget::Out(ep)) => endpoints.push(*ep),
                _ => {}
            }
        }
        endpoints
    };
    let mut seen = [0usize; 16];
    for low in [0x00u8, 0x7f, 0x80, 0xff] {
        for high in 0..=255u8 {
            let mut state = state();
            for ep in state.ep_in_states.iter_mut() {
                ep.enabled = true;
                ep.status = EndpointStatus::TxReady;
            }
            state.rx_dma_buf[..4].copy_from_slice(&[0x80, 0x69, low, high]);
            let sent = named(&run(&mut state, 4, 0x00ff_ffff, 124, [0, 0]));
            assert_eq!(sent.len(), 1);
            seen[usize::from(sent[0])] += 1;
            state.rx_dma_buf[..2].copy_from_slice(&[0x80, 0xd2]);
            assert_eq!(named(&run(&mut state, 4, 0x00ff_ffff, 126, [0, 0])), sent);
        }
    }
    assert_eq!(seen, [64; 16]);
}

#[test]
fn a_handler_stays_at_its_end() {
    let mut state = state();
    let mut handler = PioUsbIrqHandler::new();
    handler.on_interrupt(&mut state, 0);
    assert_eq!(handler.phase, IrqPhase::Flags);
    assert_eq!(handler.on_interrupt(&mut state, 0), IrqAction::Done);
    assert_eq!(handler.phase, IrqPhase::Over);
    assert_eq!(handler.on_interrupt(&mut state, 4), IrqAction::Done);
}

#[test]
fn impossible_transfer_counts_and_long_data_are_not_admitted() {
    let mut state = state();
    let handler = PioUsbIrqHandler { phase: IrqPhase::Remaining, flags: 4 };
    assert!(!handler.can_continue(&state, 129));
    assert!(handler.can_continue(&state, 128));
    state.rx_dma_buf[1] = 0xc3;
    assert!(handler.can_continue(&state, 0));
    state.expect_data = Some((0, true));
    assert!(!handler.can_continue(&state, 0));
    assert!(handler.can_continue(&state, 60));
    assert!(!handler.can_continue(&state, 59));
}
