use embassy_rp::pac::dma::regs::CtrlTrig;
use embassy_rp::pac::dma::vals::{DataSize, TreqSel};
use pio_usb::driver::address::{Direction, EndpointAddress};
use pio_usb::driver::dma::{rx_control, tx_control};
use pio_usb::driver::instruction::{clear_x, fill_osr};
use pio_usb::PioUsbHardware;

#[test]
fn address_parts() {
    let address = EndpointAddress { raw: 0x81 };
    assert_eq!(address.index(), 1);
    assert!(address.is_in());
    let address = EndpointAddress { raw: 0x0f };
    assert_eq!(address.index(), 15);
    assert!(!address.is_in());
    assert_eq!(EndpointAddress { raw: 0xff }.index(), 127);
    assert!(EndpointAddress { raw: 0x80 }.is_in());
    assert_eq!(EndpointAddress { raw: 0x80 }.index(), 0);
}

#[test]
fn address_from_its_parts() {
    assert_eq!(EndpointAddress::from_parts(3, Direction::In), EndpointAddress { raw: 0x83 });
    assert_eq!(EndpointAddress::from_parts(3, Direction::Out), EndpointAddress { raw: 0x03 });
    assert_eq!(EndpointAddress::from_parts(0x1_82, Direction::Out), EndpointAddress { raw: 0x82 });
    for index in 0..16 {
        for direction in [Direction::In, Direction::Out] {
            let address = EndpointAddress::from_parts(index, direction);
            assert_eq!(address.index(), index);
            assert_eq!(address.is_in(), direction == Direction::In);
        }
    }
}

#[test]
fn startup_instructions() {
    assert_eq!(fill_osr(), 0xa0eb);
    assert_eq!(clear_x(), 0xa023);
    let decoded = pio::Instruction::decode(fill_osr(), pio::SideSet::default()).unwrap();
    assert!(matches!(
        decoded.operands,
        pio::InstructionOperands::MOV {
            destination: pio::MovDestination::OSR,
            op: pio::MovOperation::Invert,
            source: pio::MovSource::NULL,
        }
    ));
    let decoded = pio::Instruction::decode(clear_x(), pio::SideSet::default()).unwrap();
    assert!(matches!(
        decoded.operands,
        pio::InstructionOperands::MOV {
            destination: pio::MovDestination::X,
            op: pio::MovOperation::None,
            source: pio::MovSource::NULL,
        }
    ));
}

fn channel(treq: TreqSel, incr_read: bool, incr_write: bool) -> u32 {
    let mut ctrl = CtrlTrig::default();
    ctrl.set_data_size(DataSize::SIZE_BYTE);
    ctrl.set_treq_sel(treq);
    ctrl.set_incr_read(incr_read);
    ctrl.set_incr_write(incr_write);
    ctrl.set_en(true);
    ctrl.0
}

#[test]
fn transmit_channel_control_words() {
    assert_eq!(tx_control(true, 0), 0x0000_0011);
    assert_eq!(tx_control(true, 3), 0x0001_8011);
    assert_eq!(tx_control(false, 2), 0x0005_0011);
    let pio0 = [TreqSel::PIO0_TX0, TreqSel::PIO0_TX1, TreqSel::PIO0_TX2, TreqSel::PIO0_TX3];
    let pio1 = [TreqSel::PIO1_TX0, TreqSel::PIO1_TX1, TreqSel::PIO1_TX2, TreqSel::PIO1_TX3];
    for sm in 0..4 {
        assert_eq!(tx_control(true, sm), channel(pio0[sm], true, false));
        assert_eq!(tx_control(false, sm), channel(pio1[sm], true, false));
    }
}

#[test]
fn receive_channel_control_words() {
    assert_eq!(rx_control(true, 0), 0x0002_0021);
    assert_eq!(rx_control(false, 3), 0x0007_8021);
    let pio0 = [TreqSel::PIO0_RX0, TreqSel::PIO0_RX1, TreqSel::PIO0_RX2, TreqSel::PIO0_RX3];
    let pio1 = [TreqSel::PIO1_RX0, TreqSel::PIO1_RX1, TreqSel::PIO1_RX2, TreqSel::PIO1_RX3];
    for sm in 0..4 {
        assert_eq!(rx_control(true, sm), channel(pio0[sm], false, true));
        assert_eq!(rx_control(false, sm), channel(pio1[sm], false, true));
    }
}

#[test]
fn hardware_learns_its_pins() {
    let hardware = PioUsbHardware::new();
    assert_eq!((hardware.dp_pin, hardware.dm_pin), (0, 0));
    let hardware = hardware.configure(16, 17);
    assert_eq!((hardware.dp_pin, hardware.dm_pin), (16, 17));
    assert_eq!(hardware.dp_dm_mask(), 0x0003_0000);
    assert_eq!(PioUsbHardware::new().configure(31, 0).dp_dm_mask(), 0x8000_0001);
}
