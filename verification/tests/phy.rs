use pio_usb::phy::{
    encode_tx_data, PIO_USB_TX_ENCODED_DATA_COMP, PIO_USB_TX_ENCODED_DATA_J,
    PIO_USB_TX_ENCODED_DATA_K, PIO_USB_TX_ENCODED_DATA_SE0,
};

fn encode(packet: &[u8]) -> Vec<u8> {
    let mut out = vec![0xeeu8; 512];
    let written = encode_tx_data(packet, &mut out);
    assert!(out[written..].iter().all(|b| *b == 0xee));
    out.truncate(written);
    out
}

fn symbols(encoded: &[u8]) -> Vec<u8> {
    let mut out = Vec::new();
    for byte in encoded {
        for shift in [6, 4, 2, 0] {
            out.push((byte >> shift) & 3);
        }
    }
    out
}

fn decode(encoded: &[u8]) -> Vec<u8> {
    let mut bits = Vec::new();
    let mut level = PIO_USB_TX_ENCODED_DATA_K;
    let mut ones = 0;
    for symbol in symbols(encoded) {
        if symbol == PIO_USB_TX_ENCODED_DATA_SE0 {
            break;
        }
        let bit = symbol == level;
        level = symbol;
        if ones == 6 {
            assert!(!bit);
            ones = 0;
            continue;
        }
        ones = if bit { ones + 1 } else { 0 };
        bits.push(bit);
    }
    assert_eq!(bits.len() % 8, 0);
    let mut out = Vec::new();
    for chunk in bits.chunks(8) {
        let mut byte = 0u8;
        for (i, bit) in chunk.iter().enumerate() {
            if *bit {
                byte |= 1 << i;
            }
        }
        out.push(byte);
    }
    out
}

fn samples() -> Vec<Vec<u8>> {
    let mut all = vec![vec![], vec![0x80, 0xd2], vec![0xff; 40], vec![0; 40], vec![0xfc, 0x01]];
    let mut seed: u32 = 7;
    for len in 0..60 {
        let mut packet = Vec::new();
        for _ in 0..len {
            seed = seed.wrapping_mul(1664525).wrapping_add(1013904223);
            packet.push((seed >> 24) as u8 | (seed >> 16) as u8);
        }
        all.push(packet);
    }
    all
}

#[test]
fn encodes_an_empty_packet_as_end_of_packet() {
    assert_eq!(encode(&[]), vec![0x25]);
}

#[test]
fn encodes_handshake_packets() {
    assert_eq!(encode(&[0x80, 0xD2]), vec![0xdd, 0xdf, 0x5d, 0x7f, 0x25]);
    assert_eq!(encode(&[0x80, 0x5A]), vec![0xdd, 0xdf, 0x5f, 0xd7, 0x25]);
    assert_eq!(encode(&[0x80, 0x1E]), vec![0xdd, 0xdf, 0x55, 0x77, 0x25]);
}

#[test]
fn encodes_a_short_data_packet() {
    assert_eq!(
        encode(&[0x80, 0xC3, 0x12, 0x01]),
        vec![0xdd, 0xdf, 0xf7, 0x7f, 0x5d, 0x77, 0xdd, 0xdd, 0x25]
    );
}

#[test]
fn stuffs_a_zero_after_six_ones() {
    assert_eq!(encode(&[0xff]), vec![0x55, 0x5f, 0xc9]);
    assert_eq!(encode(&[0xff, 0xff]), vec![0x55, 0x5f, 0xff, 0xd5, 0x52]);
    assert_eq!(encode(&[0x3f]), vec![0x55, 0x5d, 0xc9]);
}

#[test]
fn stuffing_counts_ones_across_bytes() {
    assert_eq!(encode(&[0xfc, 0x01]), vec![0xd5, 0x55, 0xf7, 0x77, 0x49]);
}

#[test]
fn a_zero_changes_the_line_state() {
    assert_eq!(encode(&[0x00]), vec![0xdd, 0xdd, 0x25]);
}

#[test]
fn keeps_the_buffer_behind_the_packet() {
    let mut out = [0xaau8; 8];
    assert_eq!(encode_tx_data(&[0x80, 0xD2], &mut out), 5);
    assert_eq!(out, [0xdd, 0xdf, 0x5d, 0x7f, 0x25, 0xaa, 0xaa, 0xaa]);
}

#[test]
fn fills_a_buffer_of_exactly_the_right_size() {
    let mut out = [0u8; 3];
    assert_eq!(encode_tx_data(&[0xff], &mut out), 3);
    assert_eq!(out, [0x55, 0x5f, 0xc9]);
}

#[test]
fn a_receiver_recovers_every_packet() {
    for packet in samples() {
        let mut encoded = encode(&packet);
        assert_eq!(decode(&encoded), packet);
        encoded.extend_from_slice(&[0xff, 0x00, 0x1b]);
        assert_eq!(decode(&encoded), packet);
    }
}

#[test]
fn different_packets_encode_differently() {
    let all = samples();
    for (i, a) in all.iter().enumerate() {
        for b in all.iter().skip(i + 1) {
            if a != b {
                assert!(!encode(b).starts_with(&encode(a)));
                assert!(!encode(a).starts_with(&encode(b)));
            }
        }
    }
}

#[test]
fn six_ones_are_followed_by_a_zero() {
    for packet in samples() {
        let mut level = PIO_USB_TX_ENCODED_DATA_K;
        let mut ones = 0;
        for symbol in symbols(&encode(&packet)) {
            if symbol == PIO_USB_TX_ENCODED_DATA_SE0 {
                break;
            }
            ones = if symbol == level { ones + 1 } else { 0 };
            assert!(ones <= 6);
            level = symbol;
        }
        assert!(ones < 6);
    }
}

#[test]
fn the_line_changes_within_eight_bit_times() {
    for packet in samples() {
        let line: Vec<u8> = symbols(&encode(&packet))
            .into_iter()
            .take_while(|s| *s != PIO_USB_TX_ENCODED_DATA_SE0)
            .collect();
        for window in line.windows(8) {
            assert!(window.iter().any(|s| *s != window[0]));
        }
    }
}

#[test]
fn packets_end_in_se0_comp_and_padding() {
    for packet in samples() {
        let line = symbols(&encode(&packet));
        let n = line.iter().position(|s| *s == PIO_USB_TX_ENCODED_DATA_SE0).unwrap();
        assert!(line[..n]
            .iter()
            .all(|s| *s == PIO_USB_TX_ENCODED_DATA_J || *s == PIO_USB_TX_ENCODED_DATA_K));
        assert_eq!(line[n + 1], PIO_USB_TX_ENCODED_DATA_COMP);
        assert!(line[n + 2..].iter().all(|s| *s == PIO_USB_TX_ENCODED_DATA_K));
        assert!(line.len() < n + 6);
    }
}

#[test]
fn encoded_length_stays_within_its_bounds() {
    for packet in samples() {
        let len = encode(&packet).len();
        assert!(2 * packet.len() + 1 <= len);
        assert!(len <= packet.len() * 2 * 7 / 6 + 2);
    }
    assert_eq!(encode(&[0xff; 54]).len(), 127);
    assert_eq!(encode(&[0xff; 55]).len(), 129);
    assert_eq!(encode(&[0x00; 63]).len(), 127);
    assert_eq!(encode(&[0x00; 64]).len(), 129);
    assert_eq!(encode(&[0xff; 66]).len(), 155);
}
