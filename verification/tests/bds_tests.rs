use dump1090_rs::bds::{
    decode_mb_field, try_decode_bds_10, try_decode_bds_20, try_decode_bds_30, try_decode_bds_40,
    try_decode_bds_50, try_decode_bds_60, BdsData,
};
use dump1090_rs::callsign::{ais_indices, decode_callsign, trimmed_string};
use dump1090_rs::decoder::decode_modes_message;

#[test]
fn data_link_capability_probe() {
    let mb = [0x10u8, 0, 0, 0, 0, 0, 0];
    assert_eq!(
        try_decode_bds_10(&mb),
        Some(BdsData::DataLinkCapability { continuation_flag: false, overlay_capability: false })
    );
    let mb = [0x10u8, 0x82, 0, 0, 0, 0, 0];
    assert_eq!(
        try_decode_bds_10(&mb),
        Some(BdsData::DataLinkCapability { continuation_flag: true, overlay_capability: true })
    );
    assert_eq!(try_decode_bds_10(&[0x11u8, 0, 0, 0, 0, 0, 0]), None);
}

#[test]
fn bare_data_link_capability_is_identified() {
    let mut frame = [0u8; 14];
    frame[0] = 0xA0;
    frame[4] = 0x10;
    assert_eq!(
        decode_mb_field(&frame),
        Some(BdsData::DataLinkCapability { continuation_flag: false, overlay_capability: false })
    );
    let mm = decode_modes_message(&frame, true, false);
    assert_eq!(mm.msg_type, 20);
    assert_eq!(
        mm.bds_data,
        Some(BdsData::DataLinkCapability { continuation_flag: false, overlay_capability: false })
    );
}

#[test]
fn cascade_tries_acas_before_data_link_capability() {
    // Bits after the first byte count as an advisory, and 3,0 is tried first.
    let mut frame = [0u8; 14];
    frame[0] = 0xA0;
    frame[4] = 0x10;
    frame[5] = 0x82;
    assert_eq!(
        decode_mb_field(&frame),
        Some(BdsData::AcasResolutionAdvisory { ara: 8320, rac: 0, rat: false, mte: false })
    );
}

#[test]
fn identification_probe() {
    let mb = [0x2cu8, 0xc3, 0x71, 0xc3, 0x2c, 0xe0, 0x00];
    assert_eq!(
        try_decode_bds_20(&mb),
        Some(BdsData::AircraftIdentification { callsign: String::from("KLM1023") })
    );
    let mut frame = [0u8; 14];
    frame[0] = 0xA0;
    frame[4..11].copy_from_slice(&mb);
    assert_eq!(
        decode_mb_field(&frame),
        Some(BdsData::AircraftIdentification { callsign: String::from("KLM1023") })
    );
}

#[test]
fn identification_probe_rejects_unassigned_characters() {
    // Index 34 has no character.
    assert_eq!(try_decode_bds_20(&[0x20u8, 0x15, 0x10, 0x82, 0x28, 0x20, 0x00]), None);
    // Index 0 has no character either.
    assert_eq!(try_decode_bds_20(&[0x10u8, 0, 0, 0, 0, 0, 0]), None);
    assert_eq!(try_decode_bds_20(&[0u8; 7]), None);
    // Eight spaces leave nothing once trimmed.
    assert_eq!(try_decode_bds_20(&[0x82u8, 0x08, 0x20, 0x82, 0x08, 0x20, 0x00]), None);
}

#[test]
fn cascade_falls_through_to_track_and_turn() {
    let mut frame = [0u8; 14];
    frame[0] = 0xA0;
    frame[4..11].copy_from_slice(&[0x20u8, 0x15, 0x10, 0x82, 0x28, 0x20, 0x00]);
    assert_eq!(
        decode_mb_field(&frame),
        Some(BdsData::TrackAndTurnReport {
            roll_angle: None,
            true_track: Some(648),
            ground_speed: None,
            track_rate: None,
            true_airspeed: Some(0),
        })
    );
}

#[test]
fn acas_probe() {
    assert_eq!(try_decode_bds_30(&[0u8; 7]), None);
    // The first byte is no part of the advisory.
    assert_eq!(try_decode_bds_30(&[0x10u8, 0, 0, 0, 0, 0, 0]), None);
    assert_eq!(try_decode_bds_30(&[0xffu8, 0, 0, 0, 0, 0, 0]), None);
    assert_eq!(
        try_decode_bds_30(&[0x20u8, 0x15, 0x10, 0x82, 0x28, 0x20, 0x00]),
        Some(BdsData::AcasResolutionAdvisory { ara: 1348, rac: 2, rat: false, mte: false })
    );
    assert_eq!(
        try_decode_bds_30(&[0u8, 0, 0x01, 0x20, 0, 0, 0]),
        Some(BdsData::AcasResolutionAdvisory { ara: 0, rac: 4, rat: true, mte: false })
    );
    assert_eq!(
        try_decode_bds_30(&[0x30u8, 0x01, 0x04, 0x70, 0, 0, 0]),
        Some(BdsData::AcasResolutionAdvisory { ara: 65, rac: 1, rat: true, mte: true })
    );
}

#[test]
fn selected_vertical_intention_probe() {
    assert_eq!(
        try_decode_bds_40(&[0xceu8, 0x20, 0, 0, 0, 0, 0]),
        Some(BdsData::SelectedVerticalIntention {
            mcp_altitude: Some(40000),
            fms_altitude: None,
            baro_setting: None,
            vnav_mode: false,
            alt_hold_mode: false,
            approach_mode: false,
        })
    );
    assert_eq!(
        try_decode_bds_40(&[0xceu8, 0x20, 0, 0, 0xc2, 0xa0, 0x0a]),
        Some(BdsData::SelectedVerticalIntention {
            mcp_altitude: Some(40000),
            fms_altitude: None,
            baro_setting: Some(10132),
            vnav_mode: true,
            alt_hold_mode: false,
            approach_mode: true,
        })
    );
    assert_eq!(try_decode_bds_40(&[0u8; 7]), None);
}

#[test]
fn selected_altitude_above_50000_feet_is_rejected() {
    let mb = [0xe4u8, 0, 0, 0, 0, 0, 0];
    assert_eq!(try_decode_bds_40(&mb), None);
    let mut frame = [0u8; 14];
    frame[0] = 0xA0;
    frame[4..11].copy_from_slice(&mb);
    assert_eq!(
        decode_mb_field(&frame),
        Some(BdsData::Unknown { bds_code: 0, data: [0xe4, 0, 0, 0, 0, 0, 0] })
    );
    // 50000 feet itself passes: 3125 steps of 16 feet.
    let mb = [0x80u8 | (3125u16 >> 5) as u8, ((3125u16 & 0x1f) << 3) as u8, 0, 0, 0, 0, 0];
    assert!(try_decode_bds_40(&mb).is_some());
    // The FMS altitude has the same limit.
    assert_eq!(try_decode_bds_40(&[0u8, 0, 0xe4, 0, 0, 0, 0]), None);
}

#[test]
fn barometric_setting_must_lie_between_850_and_1100_millibar() {
    assert_eq!(try_decode_bds_40(&[0u8, 0, 0, 0, 0x8f, 0x98, 0]), None);
    assert_eq!(
        try_decode_bds_40(&[0u8, 0, 0, 0, 0x8f, 0xa0, 0]),
        Some(BdsData::SelectedVerticalIntention {
            mcp_altitude: None,
            fms_altitude: None,
            baro_setting: Some(8500),
            vnav_mode: false,
            alt_hold_mode: false,
            approach_mode: false,
        })
    );
    assert_eq!(try_decode_bds_40(&[0u8, 0, 0, 0, 0xdd, 0xc8, 0]), None);
}

#[test]
fn unknown_register_keeps_raw_bytes() {
    let mut frame = [0u8; 14];
    frame[0] = 0xA0;
    frame[4..11].copy_from_slice(&[0u8, 0, 0, 0, 0x8f, 0x98, 0]);
    assert_eq!(
        decode_mb_field(&frame),
        Some(BdsData::Unknown { bds_code: 0, data: [0, 0, 0, 0, 0x8f, 0x98, 0] })
    );
    assert_eq!(decode_mb_field(&frame[..10]), None);
}

#[test]
fn track_and_turn_probe() {
    assert_eq!(
        try_decode_bds_50(&[0xf8u8, 0xe0, 0, 0, 0x08, 0x06, 0xe0]),
        Some(BdsData::TrackAndTurnReport {
            roll_angle: Some(-57),
            true_track: None,
            ground_speed: None,
            track_rate: None,
            true_airspeed: Some(440),
        })
    );
    // One value alone is not enough.
    assert_eq!(try_decode_bds_50(&[0xf8u8, 0xe0, 0, 0, 0, 0, 0]), None);
    // A roll of 342 steps is more than 60 degrees.
    assert_eq!(try_decode_bds_50(&[0xaau8, 0xc0, 0, 0, 0x08, 0x06, 0xe0]), None);
    // A true airspeed of 602 knots is too fast.
    assert_eq!(try_decode_bds_50(&[0xaau8, 0xa0, 0, 0, 0x08, 0x09, 0x68]), None);
    assert_eq!(
        try_decode_bds_50(&[0x2cu8, 0xc3, 0x71, 0xc3, 0x2c, 0xe0, 0x00]),
        Some(BdsData::TrackAndTurnReport {
            roll_angle: None,
            true_track: None,
            ground_speed: None,
            track_rate: Some(-153),
            true_airspeed: Some(0),
        })
    );
}

#[test]
fn heading_and_speed_probe() {
    assert_eq!(
        try_decode_bds_60(&[0xbeu8, 0x80, 0, 0, 0x08, 0x0f, 0xb0]),
        Some(BdsData::HeadingAndSpeedReport {
            magnetic_heading: Some(1000),
            indicated_airspeed: None,
            mach: None,
            baro_altitude_rate: None,
            inertial_altitude_rate: Some(-640),
        })
    );
    assert_eq!(
        try_decode_bds_60(&[0x2cu8, 0xc3, 0x71, 0xc3, 0x2c, 0xe0, 0x00]),
        Some(BdsData::HeadingAndSpeedReport {
            magnetic_heading: None,
            indicated_airspeed: None,
            mach: None,
            baro_altitude_rate: Some(-9792),
            inertial_altitude_rate: Some(0),
        })
    );
    assert_eq!(try_decode_bds_60(&[0u8; 7]), None);
    // Mach 1.000 passes, Mach 1.008 does not: 125 and 126 steps of 0.008.
    let mach_125 = [0x80u8, 0, 0x02, 125 >> 1, (125 & 1) << 7, 0, 0];
    assert_eq!(
        try_decode_bds_60(&mach_125),
        Some(BdsData::HeadingAndSpeedReport {
            magnetic_heading: Some(0),
            indicated_airspeed: None,
            mach: Some(1000),
            baro_altitude_rate: None,
            inertial_altitude_rate: None,
        })
    );
    let mach_126 = [0x80u8, 0, 0x02, 126 >> 1, (126 & 1) << 7, 0, 0];
    assert_eq!(try_decode_bds_60(&mach_126), None);
    // An indicated airspeed of 501 knots is too fast.
    let ias_501 = [0x80u8, 0x10 | (501u16 >> 6) as u8, ((501u16 & 0x3f) << 2) as u8, 0, 0, 0, 0];
    assert_eq!(try_decode_bds_60(&ias_501), None);
}

#[test]
fn callsign_is_trimmed_on_both_sides() {
    assert_eq!(trimmed_string(&['K', 'L', 'M', ' ', ' ']), "KLM");
    assert_eq!(trimmed_string(&[' ', ' ', 'A', ' ', 'B', ' ']), "A B");
    assert_eq!(trimmed_string(&[' ', ' ']), "");
    assert_eq!(trimmed_string(&[]), "");
    assert_eq!(trimmed_string(&['?', ' ']), "?");
}

#[test]
fn callsign_field_is_read_from_any_byte() {
    let frame = [
        0x8Du8, 0x48, 0x40, 0xD6, 0x20, 0x2C, 0xC3, 0x71, 0xC3, 0x2C, 0xE0, 0x57, 0x60, 0x98,
    ];
    assert_eq!(ais_indices(&frame, 5), [11, 12, 13, 49, 48, 50, 51, 32]);
    assert_eq!(decode_callsign(&frame, 5), "KLM1023");
    // Unassigned indices are tolerated here and show as question marks.
    assert_eq!(decode_callsign(&[0u8; 6], 0), "????????");
}
