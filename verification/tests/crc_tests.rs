use dump1090_rs::crc::{
    extract_crc, fix_single_bit_errors, fix_two_bit_errors, is_valid_icao, modes_checksum,
    recover_icao_from_crc, verify_crc, MODES_CHECKSUM_TABLE,
};

const GOOD_FRAME: [u8; 14] = [
    0x8D, 0x48, 0x40, 0xD6, 0x20, 0x2C, 0xC3, 0x71, 0xC3, 0x2C, 0xE0, 0x57, 0x60, 0x98,
];

#[test]
fn test_checksum_known_good() {
    let msg = [
        0x8D, 0x48, 0x40, 0xD6, 0x20, 0x2C, 0xC3, 0x71, 0xC3, 0x2C, 0xE0, 0x57, 0x60, 0x98,
    ];
    let crc = modes_checksum(&msg, 112);
    let expected = extract_crc(&msg, 112);
    assert_eq!(crc, expected);
}

#[test]
fn test_single_bit_error_correction() {
    let mut msg = [
        0x8D, 0x48, 0x40, 0xD6, 0x20, 0x2C, 0xC3, 0x71, 0xC3, 0x2C, 0xE0, 0x57, 0x60, 0x98,
    ];
    let intact = msg.clone();
    msg[5] ^= 0x04;
    if let Some(bit_pos) = fix_single_bit_errors(&mut msg, 112) {
        assert_eq!(msg, intact);
        assert!(bit_pos > 0);
    }
}

#[test]
fn checksum_has_exact_value() {
    assert_eq!(modes_checksum(&GOOD_FRAME, 112), 0x576098);
    assert_eq!(extract_crc(&GOOD_FRAME, 112), 0x576098);
    assert!(verify_crc(&GOOD_FRAME, 112));
}

#[test]
fn checksum_of_short_frame_skips_first_half_of_table() {
    let msg = [0x80u8, 0, 0, 0, 0, 0, 0];
    assert_eq!(modes_checksum(&msg, 56), MODES_CHECKSUM_TABLE[56]);
    let long = [0x80u8, 0, 0, 0, 0, 0, 0, 0, 0, 0, 0, 0, 0, 0];
    assert_eq!(modes_checksum(&long, 112), MODES_CHECKSUM_TABLE[0]);
}

#[test]
fn checksum_ignores_its_own_field() {
    let mut msg = GOOD_FRAME;
    msg[11] = 0;
    msg[12] = 0;
    msg[13] = 0;
    assert_eq!(modes_checksum(&msg, 112), 0x576098);
    for entry in &MODES_CHECKSUM_TABLE[88..] {
        assert_eq!(*entry, 0);
    }
}

#[test]
fn extract_reads_last_three_bytes() {
    let msg = [0u8, 0, 0, 0, 0x12, 0x34, 0x56];
    assert_eq!(extract_crc(&msg, 56), 0x123456);
}

#[test]
fn valid_frame_needs_no_single_fix() {
    let mut msg = GOOD_FRAME;
    assert_eq!(fix_single_bit_errors(&mut msg, 112), None);
    assert_eq!(msg, GOOD_FRAME);
}

#[test]
fn every_single_flip_is_repaired() {
    for k in 0..112usize {
        let mut msg = GOOD_FRAME;
        msg[k / 8] ^= 1u8 << (7 - (k % 8));
        assert_eq!(fix_single_bit_errors(&mut msg, 112), Some(k));
        assert_eq!(msg, GOOD_FRAME);
    }
}

#[test]
fn flipped_bit_23_is_repaired() {
    let mut msg = GOOD_FRAME;
    msg[2] ^= 0x01;
    assert_eq!(fix_single_bit_errors(&mut msg, 112), Some(23));
    assert_eq!(msg, GOOD_FRAME);
}

#[test]
fn two_flips_defeat_single_fix_but_not_double_fix() {
    let mut msg = GOOD_FRAME;
    msg[4] ^= 0x80;
    msg[9] ^= 0x01;
    let damaged = msg;
    assert_eq!(fix_single_bit_errors(&mut msg, 112), None);
    assert_eq!(msg, damaged);
    assert_eq!(fix_two_bit_errors(&mut msg, 112), Some((32, 79)));
    assert_eq!(msg, GOOD_FRAME);
}

#[test]
fn double_fix_leaves_hopeless_frame_alone() {
    let mut msg = GOOD_FRAME;
    msg[0] ^= 0x80;
    msg[1] ^= 0x80;
    msg[2] ^= 0x80;
    let damaged = msg;
    assert_eq!(fix_single_bit_errors(&mut msg, 112), None);
    assert_eq!(fix_two_bit_errors(&mut msg, 112), None);
    assert_eq!(msg, damaged);
}

#[test]
fn address_is_recovered_from_overlaid_checksum() {
    let df4 = [0x20u8, 0x00, 0x0f, 0x1f, 0x68, 0x4a, 0x6c];
    assert_eq!(recover_icao_from_crc(&df4, 56), 0x4d2023);
    assert_eq!(recover_icao_from_crc(&GOOD_FRAME, 112), 0);
}

#[test]
fn plausible_addresses() {
    assert!(!is_valid_icao(0));
    assert!(is_valid_icao(1));
    assert!(is_valid_icao(0xFFFFFF));
    assert!(!is_valid_icao(0x1000000));
}
