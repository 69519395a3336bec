use dump1090_rs::aircraft::{hex_address, Aircraft, AircraftStore, NANOS_PER_SEC};
use dump1090_rs::bds::BdsData;
use dump1090_rs::decoder::{decode_hex_message, ModesMessage};

const SECOND: u64 = NANOS_PER_SEC;

fn position_message(addr: [u8; 3], odd: bool, lat: u32, lon: u32) -> ModesMessage {
    let mut mm = ModesMessage::default();
    mm.msg_type = 17;
    mm.msg_bits = 112;
    mm.crc_ok = true;
    mm.aa = addr;
    mm.me_type = 11;
    mm.fflag = odd;
    mm.raw_latitude = lat;
    mm.raw_longitude = lon;
    mm.altitude = 38000;
    mm
}

fn is_fraction(num: i64, den: i64, expected_num: i64, expected_den: i64) -> bool {
    den > 0 && (num as i128) * (expected_den as i128) == (expected_num as i128) * (den as i128)
}

#[test]
fn test_aircraft_new() {
    let ac = Aircraft::new(0x4840D6, 0);
    assert_eq!(ac.addr, 0x4840D6);
    assert_eq!(ac.hex_addr, "4840D6");
    assert_eq!(ac.messages, 0);
    assert!(ac.roll_angle.is_none());
    assert!(ac.mach.is_none());
}

#[test]
fn test_aircraft_store() {
    let store = AircraftStore::new(60);
    assert!(store.is_empty());
    assert_eq!(store.len(), 0);
}

#[test]
fn addresses_are_written_in_upper_case_hex() {
    assert_eq!(hex_address(0), "000000");
    assert_eq!(hex_address(0xABCDEF), "ABCDEF");
    assert_eq!(hex_address(0x00000A), "00000A");
    assert_eq!(hex_address(0x1000000), "1000000");
    assert_eq!(hex_address(0xFFFFFFFF), "FFFFFFFF");
    assert_eq!(hex_address(0x10000000), "10000000");
}

#[test]
fn new_aircraft_knows_nothing() {
    let ac = Aircraft::new(0x40621D, 5 * SECOND);
    assert_eq!(ac.first_seen, 5 * SECOND);
    assert_eq!(ac.seen, 5 * SECOND);
    assert_eq!(ac.flight, "");
    assert_eq!(ac.squawk, 0);
    assert!(ac.lat.is_zero() && ac.lon.is_zero());
    assert_eq!(ac.odd_cprtime, None);
    assert_eq!(ac.even_cprtime, None);
    assert!(!ac.pair_is_fresh());
}

#[test]
fn first_frame_creates_the_record() {
    let mut store = AircraftStore::new(60);
    let mm = decode_hex_message("*8D4840D6202CC371C32CE0576098;", true, false).unwrap();
    {
        let ac = store.update_from_message(&mm, 7 * SECOND).unwrap();
        assert_eq!(ac.addr, 0x4840D6);
        assert_eq!(ac.hex_addr, "4840D6");
        assert_eq!(ac.flight, "KLM1023");
        assert_eq!(ac.messages, 1);
        assert_eq!(ac.first_seen, 7 * SECOND);
        assert_eq!(ac.seen, 7 * SECOND);
    }
    assert_eq!(store.len_total(), 1);
    // One message does not confirm an aircraft.
    assert_eq!(store.len(), 0);
    assert!(store.is_empty());
    assert!(store.all().is_empty());
    assert_eq!(store.all_unfiltered().len(), 1);
    {
        let ac = store.update_from_message(&mm, 9 * SECOND).unwrap();
        assert_eq!(ac.messages, 2);
        assert_eq!(ac.first_seen, 7 * SECOND);
        assert_eq!(ac.seen, 9 * SECOND);
        assert_eq!(ac.addr, 0x4840D6);
    }
    assert_eq!(store.len(), 1);
    assert!(!store.is_empty());
    assert_eq!(store.all()[0].addr, 0x4840D6);
    assert!(store.get(0x4840D6).is_some());
    assert!(store.get(0x4840D7).is_none());
}

#[test]
fn ghost_filter_threshold_is_configurable() {
    let mut store = AircraftStore::with_min_messages(60, 1);
    assert_eq!(store.min_messages(), 1);
    assert_eq!(store.ttl_secs(), 60);
    assert_eq!(AircraftStore::new(60).min_messages(), 2);
    let mm = decode_hex_message("*8D4840D6202CC371C32CE0576098;", true, false).unwrap();
    store.update_from_message(&mm, 0);
    assert_eq!(store.len(), 1);
    let mut strict = AircraftStore::with_min_messages(60, 3);
    strict.update_from_message(&mm, 0);
    strict.update_from_message(&mm, 1);
    assert_eq!(strict.len(), 0);
    strict.update_from_message(&mm, 2);
    assert_eq!(strict.len(), 1);
}

#[test]
fn records_are_kept_apart_by_address() {
    let mut store = AircraftStore::with_min_messages(60, 1);
    let klm = decode_hex_message("*8D4840D6202CC371C32CE0576098;", true, false).unwrap();
    let other = decode_hex_message("*8D40621D58C382D690C8AC2863A7;", true, false).unwrap();
    store.update_from_message(&klm, 1);
    store.update_from_message(&other, 2);
    store.update_from_message(&other, 3);
    assert_eq!(store.len_total(), 2);
    assert_eq!(store.get(0x4840D6).unwrap().messages, 1);
    assert_eq!(store.get(0x4840D6).unwrap().seen, 1);
    assert_eq!(store.get(0x40621D).unwrap().messages, 2);
    assert_eq!(store.get(0x40621D).unwrap().altitude, 38000);
    let mut listed: Vec<u32> = store.all().iter().map(|a| a.addr).collect();
    listed.sort();
    assert_eq!(listed, vec![0x40621D, 0x4840D6]);
}

#[test]
fn stale_records_are_pruned() {
    let mut store = AircraftStore::with_min_messages(60, 1);
    let mm = decode_hex_message("*8D4840D6202CC371C32CE0576098;", true, false).unwrap();
    let seen = 1000 * SECOND;
    store.update_from_message(&mm, seen);
    store.remove_stale(seen + 60 * SECOND);
    assert_eq!(store.len_total(), 1);
    assert_eq!(store.all().len(), 1);
    store.remove_stale(seen + 60 * SECOND + 1);
    assert_eq!(store.len_total(), 0);
    store.update_from_message(&mm, seen);
    store.remove_stale(seen + 61 * SECOND);
    assert_eq!(store.len_total(), 0);
    assert!(store.all().is_empty());
    assert!(store.all_unfiltered().is_empty());
    assert!(store.get(0x4840D6).is_none());
}

#[test]
fn pruning_spares_fresh_records_and_times_before_the_last_message() {
    let mut store = AircraftStore::with_min_messages(10, 1);
    let klm = decode_hex_message("*8D4840D6202CC371C32CE0576098;", true, false).unwrap();
    let other = decode_hex_message("*8D40621D58C382D690C8AC2863A7;", true, false).unwrap();
    store.update_from_message(&klm, 100 * SECOND);
    store.update_from_message(&other, 105 * SECOND);
    store.remove_stale(50 * SECOND);
    assert_eq!(store.len_total(), 2);
    store.remove_stale(112 * SECOND);
    assert_eq!(store.len_total(), 1);
    assert!(store.get(0x4840D6).is_none());
    assert_eq!(store.get(0x40621D).unwrap().messages, 1);
    let mut forever = AircraftStore::with_min_messages(u64::MAX, 1);
    forever.update_from_message(&klm, 0);
    forever.remove_stale(u64::MAX);
    assert_eq!(forever.len_total(), 1);
}

#[test]
fn position_needs_a_fragment_of_each_parity() {
    let mut store = AircraftStore::with_min_messages(60, 1);
    let even = position_message([0x40, 0x62, 0x1D], false, 93000, 51372);
    {
        let ac = store.update_from_message(&even, 10 * SECOND).unwrap();
        assert!(ac.lat.is_zero() && ac.lon.is_zero());
        assert_eq!(ac.even_cprlat, 93000);
        assert_eq!(ac.even_cprlon, 51372);
        assert_eq!(ac.even_cprtime, Some(10 * SECOND));
        assert_eq!(ac.odd_cprtime, None);
        assert_eq!(ac.altitude, 38000);
    }
    let ac = store.update_from_message(&even, 11 * SECOND).unwrap();
    assert!(ac.lat.is_zero() && ac.lon.is_zero());
    assert_eq!(ac.even_cprtime, Some(11 * SECOND));
}

#[test]
fn fresh_pair_with_even_newer_gives_the_even_position() {
    let mut store = AircraftStore::with_min_messages(60, 1);
    let odd = position_message([0x40, 0x62, 0x1D], true, 74158, 50194);
    let even = position_message([0x40, 0x62, 0x1D], false, 93000, 51372);
    store.update_from_message(&odd, 100 * SECOND);
    let ac = store.update_from_message(&even, 109 * SECOND).unwrap();
    assert!(is_fraction(ac.lat.num, ac.lat.den, 428091, 8192));
    assert!(is_fraction(ac.lon.num, ac.lon.den, 64215, 16384));
    let lat = ac.lat.num as f64 / ac.lat.den as f64;
    let lon = ac.lon.num as f64 / ac.lon.den as f64;
    assert!(lat > 51.0 && lat < 52.5);
    assert!((lon - 3.91937255859375).abs() < 1e-9);
    assert_eq!(ac.messages, 2);
}

#[test]
fn decoded_frames_pair_up_as_well() {
    let mut store = AircraftStore::with_min_messages(60, 1);
    let even = decode_hex_message("*8D40621D58C382D690C8AC2863A7;", true, false).unwrap();
    let odd = decode_hex_message("*8D40621D58C386435CC412692AD6;", true, false).unwrap();
    store.update_from_message(&even, 100 * SECOND);
    let ac = store.update_from_message(&odd, 101 * SECOND).unwrap();
    assert!(is_fraction(ac.lat.num, ac.lat.den, 25261515, 483328));
    assert!(is_fraction(ac.lon.num, ac.lon.den, 225873, 57344));
    assert_eq!(ac.altitude, 38000);
}

#[test]
fn fragments_more_than_ten_seconds_apart_do_not_pair() {
    let mut store = AircraftStore::with_min_messages(60, 1);
    let odd = position_message([0x40, 0x62, 0x1D], true, 74158, 50194);
    let even = position_message([0x40, 0x62, 0x1D], false, 93000, 51372);
    store.update_from_message(&odd, 100 * SECOND);
    {
        let ac = store.update_from_message(&even, 110 * SECOND + 1).unwrap();
        assert!(ac.lat.is_zero() && ac.lon.is_zero());
        assert!(!ac.pair_is_fresh());
    }
    // Exactly ten seconds apart still pair.
    let ac = store.update_from_message(&odd, 120 * SECOND + 1).unwrap();
    assert!(ac.pair_is_fresh());
    assert!(is_fraction(ac.lat.num, ac.lat.den, 25261515, 483328));
}

#[test]
fn pair_without_a_position_stays_staged() {
    let mut store = AircraftStore::with_min_messages(60, 1);
    let even = position_message([1, 2, 3], false, 97659, 1000);
    let odd = position_message([1, 2, 3], true, 93846, 1000);
    store.update_from_message(&even, SECOND);
    let ac = store.update_from_message(&odd, 2 * SECOND).unwrap();
    assert!(ac.lat.is_zero() && ac.lon.is_zero());
    assert_eq!(ac.even_cprlat, 97659);
    assert_eq!(ac.odd_cprlat, 93846);
    assert_eq!(ac.even_cprtime, Some(SECOND));
    assert_eq!(ac.odd_cprtime, Some(2 * SECOND));
}

#[test]
fn velocity_sets_speed_and_track() {
    let mut store = AircraftStore::with_min_messages(60, 1);
    let mut mm = decode_hex_message("*8D485020994409940838175B284F;", true, false).unwrap();
    // The direction of the velocity, 183.2 degrees, in sixteenths of a degree.
    mm.heading = 2931;
    let ac = store.update_from_message(&mm, 0).unwrap();
    assert_eq!(ac.speed, 160);
    assert_eq!(ac.track, 183);
    // A heading message changes neither.
    let heading = decode_hex_message("*8DA05F219B06B6AF189400CBC33F;", true, false).unwrap();
    let mut store = AircraftStore::with_min_messages(60, 1);
    let ac = store.update_from_message(&heading, 0).unwrap();
    assert_eq!(ac.speed, 0);
    assert_eq!(ac.track, 0);
}

#[test]
fn surveillance_replies_set_altitude_and_squawk() {
    let mut store = AircraftStore::with_min_messages(60, 1);
    let df4 = decode_hex_message("*20000f1f684a6c;", true, false).unwrap();
    let df5 = decode_hex_message("*280010248c796b;", true, false).unwrap();
    store.update_from_message(&df4, 0);
    let ac = store.update_from_message(&df5, 1).unwrap();
    assert_eq!(ac.addr, 0x4d2023);
    assert_eq!(ac.altitude, 23375);
    assert_eq!(ac.squawk, 112);
    assert_eq!(ac.messages, 2);
    // A squawk of zero does not replace a squawk.
    let mut blank = ModesMessage::default();
    blank.msg_type = 5;
    blank.aa = [0x4d, 0x20, 0x23];
    let ac = store.update_from_message(&blank, 2).unwrap();
    assert_eq!(ac.squawk, 112);
    assert_eq!(ac.altitude, 23375);
}

#[test]
fn signal_level_is_a_running_mean() {
    let mut store = AircraftStore::with_min_messages(60, 1);
    let mut mm = decode_hex_message("*8D4840D6202CC371C32CE0576098;", true, false).unwrap();
    mm.signal_level = 800;
    mm.phase_corrected = true;
    assert_eq!(store.update_from_message(&mm, 0).unwrap().signal_level, 800);
    mm.signal_level = 1600;
    mm.phase_corrected = false;
    {
        let ac = store.update_from_message(&mm, 1).unwrap();
        assert_eq!(ac.signal_level, 900);
        assert_eq!(ac.phase_corrections, 1);
    }
    mm.signal_level = 0;
    mm.phase_corrected = true;
    let ac = store.update_from_message(&mm, 2).unwrap();
    assert_eq!(ac.signal_level, 900);
    assert_eq!(ac.phase_corrections, 2);
}

#[test]
fn comm_b_registers_fill_in_the_record() {
    let mut ac = Aircraft::new(1, 0);
    ac.update_from_bds(&BdsData::AircraftIdentification { callsign: String::from("KLM1023") });
    assert_eq!(ac.flight, "KLM1023");
    ac.update_from_bds(&BdsData::AircraftIdentification { callsign: String::from("OTHER") });
    assert_eq!(ac.flight, "KLM1023");
    ac.update_from_bds(&BdsData::SelectedVerticalIntention {
        mcp_altitude: Some(40000),
        fms_altitude: Some(1),
        baro_setting: None,
        vnav_mode: true,
        alt_hold_mode: false,
        approach_mode: false,
    });
    assert_eq!(ac.selected_altitude, Some(40000));
    assert_eq!(ac.baro_setting, None);
    ac.update_from_bds(&BdsData::SelectedVerticalIntention {
        mcp_altitude: None,
        fms_altitude: None,
        baro_setting: Some(10132),
        vnav_mode: true,
        alt_hold_mode: false,
        approach_mode: false,
    });
    assert_eq!(ac.selected_altitude, Some(40000));
    assert_eq!(ac.baro_setting, Some(10132));
    ac.update_from_bds(&BdsData::TrackAndTurnReport {
        roll_angle: Some(-57),
        true_track: Some(1045),
        ground_speed: Some(440),
        track_rate: Some(3),
        true_airspeed: Some(450),
    });
    assert_eq!(ac.roll_angle, Some(-57));
    assert_eq!(ac.speed, 440);
    assert_eq!(ac.true_airspeed, Some(450));
    // 1045 steps of 90/512 degree are 183.69 degrees.
    assert_eq!(ac.track, 183);
    ac.update_from_bds(&BdsData::HeadingAndSpeedReport {
        magnetic_heading: Some(1000),
        indicated_airspeed: Some(280),
        mach: Some(784),
        baro_altitude_rate: Some(-640),
        inertial_altitude_rate: Some(64),
    });
    assert_eq!(ac.magnetic_heading, Some(1000));
    assert_eq!(ac.indicated_airspeed, Some(280));
    assert_eq!(ac.mach, Some(784));
    assert_eq!(ac.baro_altitude_rate, Some(-640));
    ac.update_from_bds(&BdsData::Unknown { bds_code: 0, data: [0; 7] });
    ac.update_from_bds(&BdsData::DataLinkCapability {
        continuation_flag: true,
        overlay_capability: true,
    });
    ac.update_from_bds(&BdsData::AcasResolutionAdvisory { ara: 1, rac: 1, rat: true, mte: true });
    assert_eq!(ac.speed, 440);
    assert_eq!(ac.track, 183);
    assert_eq!(ac.messages, 0);
}

#[test]
fn comm_b_reply_reaches_the_record_through_the_store() {
    let mut store = AircraftStore::with_min_messages(60, 1);
    let mut mm = ModesMessage::default();
    mm.msg_type = 20;
    mm.aa = [1, 2, 3];
    mm.altitude = 12000;
    mm.bds_data = Some(BdsData::AircraftIdentification { callsign: String::from("KLM1023") });
    let ac = store.update_from_message(&mm, 0).unwrap();
    assert_eq!(ac.altitude, 12000);
    assert_eq!(ac.flight, "KLM1023");
    // Format 4 has no MB field: a register in the record is ignored.
    let mut store = AircraftStore::with_min_messages(60, 1);
    mm.msg_type = 4;
    let ac = store.update_from_message(&mm, 0).unwrap();
    assert_eq!(ac.altitude, 12000);
    assert_eq!(ac.flight, "");
}

#[test]
fn other_formats_only_count() {
    let mut store = AircraftStore::with_min_messages(60, 1);
    let mut mm = ModesMessage::default();
    mm.msg_type = 11;
    mm.aa = [9, 9, 9];
    mm.altitude = 5;
    mm.identity = 7700;
    let ac = store.update_from_message(&mm, 3).unwrap();
    assert_eq!(ac.messages, 1);
    assert_eq!(ac.seen, 3);
    assert_eq!(ac.altitude, 0);
    assert_eq!(ac.squawk, 0);
}

#[test]
fn staleness_is_measured_in_seconds() {
    let mut ac = Aircraft::new(1, 0);
    ac.seen = 10 * SECOND;
    assert!(!ac.is_stale(10 * SECOND, 0));
    assert!(ac.is_stale(10 * SECOND + 1, 0));
    assert!(!ac.is_stale(70 * SECOND, 60));
    assert!(ac.is_stale(70 * SECOND + 1, 60));
    assert!(!ac.is_stale(0, 60));
    assert!(!ac.is_stale(u64::MAX, u64::MAX));
}
