use dump1090_rs::altitude::{
    altitude_from_25ft_count, decode_ac12_field, decode_ac13_field, decode_gillham_altitude,
    encode_gillham_altitude, gray_to_binary, AltitudeUnit,
};

#[test]
fn test_gray_to_binary() {
    assert_eq!(gray_to_binary(0b0000), 0b0000);
    assert_eq!(gray_to_binary(0b0001), 0b0001);
    assert_eq!(gray_to_binary(0b0011), 0b0010);
    assert_eq!(gray_to_binary(0b0010), 0b0011);
    assert_eq!(gray_to_binary(0b0110), 0b0100);
    assert_eq!(gray_to_binary(0b0111), 0b0101);
    assert_eq!(gray_to_binary(0b0101), 0b0110);
    assert_eq!(gray_to_binary(0b0100), 0b0111);
    assert_eq!(gray_to_binary(0b1100), 0b1000);
    assert_eq!(gray_to_binary(0b1111), 0b1010);
}

#[test]
fn test_gillham_altitude() {
    assert_eq!(decode_gillham_altitude(0), None);
    let result = decode_gillham_altitude(0x010);
    assert!(result.is_none() || result.unwrap() >= -1200);
}

#[test]
fn gray_code_inverts_for_all_small_numbers() {
    for binary in 0..4096u32 {
        assert_eq!(gray_to_binary(binary ^ (binary >> 1)), binary);
    }
    assert_eq!(gray_to_binary(0x8000_0000), 0xFFFF_FFFF);
}

#[test]
fn gillham_codes_have_exact_altitudes() {
    assert_eq!(decode_gillham_altitude(0x010), Some(-1200));
    assert_eq!(decode_gillham_altitude(0x001), Some(-1100));
    assert_eq!(decode_gillham_altitude(0x040), Some(-800));
    assert_eq!(decode_gillham_altitude(0x048), Some(-400));
    assert_eq!(decode_gillham_altitude(0x400), Some(30200));
    assert_eq!(decode_gillham_altitude(0x7ff), Some(17500));
    // Only A1 set: band 0, step 4 mirrored from 0, which is -900 feet.
    assert_eq!(decode_gillham_altitude(0x008), Some(-900));
}

#[test]
fn gillham_round_trip_on_the_grid() {
    let mut representable = 0;
    let mut altitude = -1200;
    while altitude <= 126700 {
        match encode_gillham_altitude(altitude) {
            Some(code) => {
                representable += 1;
                assert_eq!(decode_gillham_altitude(code), Some(altitude));
            }
            None => {}
        }
        altitude += 100;
    }
    assert_eq!(representable, 159);
}

#[test]
fn gillham_encoder_knows_what_has_no_code() {
    assert_eq!(encode_gillham_altitude(-1200), Some(16));
    assert_eq!(encode_gillham_altitude(0), Some(224));
    assert_eq!(encode_gillham_altitude(1000), Some(416));
    assert_eq!(encode_gillham_altitude(30600), Some(1057));
    assert_eq!(encode_gillham_altitude(2700), None);
    assert_eq!(encode_gillham_altitude(126700), None);
    assert_eq!(encode_gillham_altitude(-1300), None);
    assert_eq!(encode_gillham_altitude(126800), None);
    assert_eq!(encode_gillham_altitude(1050), None);
}

#[test]
fn q_bit_altitudes() {
    assert_eq!(altitude_from_25ft_count(0), -1000);
    assert_eq!(altitude_from_25ft_count(2088), 51200);
    assert_eq!(altitude_from_25ft_count(2047), 50175);
    assert_eq!(altitude_from_25ft_count(1), -975);
}

#[test]
fn ac13_with_q_bit_counts_25_feet() {
    let mut unit = AltitudeUnit::Meters;
    // N = 0: only the Q bit is set.
    assert_eq!(decode_ac13_field(&[0x20, 0, 0x00, 0x10], &mut unit), -1000);
    assert_eq!(unit, AltitudeUnit::Feet);
    // N = 2047: every bit but M.
    assert_eq!(decode_ac13_field(&[0x20, 0, 0x1f, 0xbf], &mut unit), 50175);
    assert_eq!(decode_ac13_field(&[0x20, 0, 0x0f, 0x1f], &mut unit), 23375);
    assert_eq!(unit, AltitudeUnit::Feet);
}

#[test]
fn ac13_with_m_bit_counts_25_metres() {
    let mut unit = AltitudeUnit::Feet;
    // M set, N = 0b00000_0_1_0100 = 20.
    assert_eq!(decode_ac13_field(&[0x20, 0, 0x00, 0x64], &mut unit), 500);
    assert_eq!(unit, AltitudeUnit::Meters);
    assert_eq!(decode_ac13_field(&[0x20, 0, 0x00, 0x40], &mut unit), 0);
    assert_eq!(unit, AltitudeUnit::Meters);
}

#[test]
fn ac13_without_q_bit_is_gillham() {
    let mut unit = AltitudeUnit::Meters;
    // All zero: the Gillham code 0 is invalid and gives 0.
    assert_eq!(decode_ac13_field(&[0x20, 0, 0x00, 0x00], &mut unit), 0);
    assert_eq!(unit, AltitudeUnit::Feet);
    // A2 alone (bit 22): code 0x010, -1200 feet.
    assert_eq!(decode_ac13_field(&[0x20, 0, 0x02, 0x00], &mut unit), -1200);
    // B1 alone (bit 26): code 0x040, -800 feet.
    assert_eq!(decode_ac13_field(&[0x20, 0, 0x00, 0x20], &mut unit), -800);
    // D4 alone (bit 30): code 0x400, 30200 feet.
    assert_eq!(decode_ac13_field(&[0x20, 0, 0x00, 0x02], &mut unit), 30200);
}

#[test]
fn ac12_fields() {
    let mut unit = AltitudeUnit::Meters;
    let mut msg = [0u8; 14];
    msg[5] = 0x01;
    assert_eq!(decode_ac12_field(&msg, &mut unit), -1000);
    assert_eq!(unit, AltitudeUnit::Feet);
    msg[5] = 0xC3;
    msg[6] = 0x82;
    assert_eq!(decode_ac12_field(&msg, &mut unit), 38000);
    msg[5] = 0xFF;
    msg[6] = 0xF0;
    assert_eq!(decode_ac12_field(&msg, &mut unit), 50175);
    // Q clear, B1 alone (bit 40): code 0x040.
    msg[5] = 0x80;
    msg[6] = 0x00;
    assert_eq!(decode_ac12_field(&msg, &mut unit), -800);
    // Q clear, nothing set: invalid code, 0.
    msg[5] = 0x00;
    assert_eq!(decode_ac12_field(&msg, &mut unit), 0);
    assert_eq!(unit, AltitudeUnit::Feet);
}
