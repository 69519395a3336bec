use dump1090_rs::config::Config;
use dump1090_rs::crc::modes_checksum;
use dump1090_rs::demodulator::{
    is_preamble, preamble_level, slice_frame, try_decode_at, Demodulator, SampleBuffer,
    MODES_DATA_LEN, MODES_OVERLAP,
};
use std::collections::HashSet;

const KLM: [u8; 14] = [
    0x8D, 0x48, 0x40, 0xD6, 0x20, 0x2C, 0xC3, 0x71, 0xC3, 0x2C, 0xE0, 0x57, 0x60, 0x98,
];

const DF4: [u8; 7] = [0x20, 0x00, 0x0f, 0x1f, 0x68, 0x4a, 0x6c];

/// A valid extended squitter from the address of `DF4`.
fn squitter_of_df4_sender() -> Vec<u8> {
    let mut frame = vec![0x8D, 0x4d, 0x20, 0x23, 0x20, 0x2C, 0xC3, 0x71, 0xC3, 0x2C, 0xE0, 0, 0, 0];
    let crc = modes_checksum(&frame, 112);
    frame[11] = (crc >> 16) as u8;
    frame[12] = (crc >> 8) as u8;
    frame[13] = crc as u8;
    frame
}

/// Writes a preamble at `pos` and the frame's bits from `pos + 16 + shift` on.
fn write_frame(m: &mut [u16], pos: usize, shift: usize, frame: &[u8], high: u16, low: u16) {
    for k in 0..16 {
        m[pos + k] = if k == 0 || k == 2 || k == 7 || k == 9 { high } else { low };
    }
    for bit in 0..frame.len() * 8 {
        let set = frame[bit / 8] & (1 << (7 - bit % 8)) != 0;
        let at = pos + 16 + shift + 2 * bit;
        m[at] = if set { high } else { low };
        m[at + 1] = if set { low } else { high };
    }
}

fn quiet(len: usize, level: u16) -> Vec<u16> {
    vec![level; len]
}

#[test]
fn preamble_needs_every_pulse_and_every_gap() {
    let mut m = quiet(32, 10);
    write_frame(&mut m, 3, 0, &[], 1000, 10);
    assert!(is_preamble(&m, 3));
    assert_eq!(preamble_level(&m, 3), 1000);
    assert!(!is_preamble(&m, 2));
    assert!(!is_preamble(&m, 4));
    for k in [0usize, 2, 7, 9] {
        let mut weak = m.clone();
        weak[3 + k] = 10;
        assert!(!is_preamble(&weak, 3));
    }
    // Noise between the pulse pairs, at a sixth of the pulse sum or above.
    for k in [4usize, 5, 11, 12, 13, 14] {
        let mut noisy = m.clone();
        noisy[3 + k] = 666;
        assert!(!is_preamble(&noisy, 3));
        noisy[3 + k] = 665;
        assert!(is_preamble(&noisy, 3));
    }
    // Samples 6 and 10 only have to stay below the pulses around them.
    let mut loud = m.clone();
    loud[3 + 6] = 999;
    loud[3 + 10] = 5000;
    assert!(is_preamble(&loud, 3));
    loud[3 + 6] = 1000;
    assert!(!is_preamble(&loud, 3));
}

#[test]
fn preamble_level_is_the_mean_of_the_pulses() {
    let m: Vec<u16> = vec![65535, 0, 65535, 0, 0, 0, 0, 65535, 0, 65534];
    assert_eq!(preamble_level(&m, 0), 65534);
    let m: Vec<u16> = vec![1, 0, 2, 0, 0, 0, 0, 3, 0, 5];
    assert_eq!(preamble_level(&m, 0), 2);
}

#[test]
fn bits_are_sliced_by_the_stronger_half() {
    let mut m = quiet(300, 10);
    write_frame(&mut m, 20, 0, &KLM, 1000, 10);
    assert_eq!(slice_frame(&m, 36), KLM);
    // Equal halves repeat the bit before; the first bit is then 0.
    let mut m = quiet(224, 7);
    assert_eq!(slice_frame(&m, 0), [0u8; 14]);
    m[0] = 9;
    assert_eq!(slice_frame(&m, 0), [0xFFu8; 14]);
    m[9] = 8;
    assert_eq!(slice_frame(&m, 0)[0], 0xF0);
    assert_eq!(slice_frame(&m, 0)[1], 0x00);
}

#[test]
fn checked_frame_is_found_with_its_signal_level() {
    let mut m = quiet(500, 10);
    write_frame(&mut m, 100, 0, &KLM, 1000, 10);
    let mut demodulator = Demodulator::new(Config::default());
    let frames = demodulator.detect_modes_external(&m);
    assert_eq!(frames.len(), 1);
    assert_eq!(frames[0].msg, KLM);
    assert_eq!(frames[0].icao_address(), 0x4840D6);
    assert!(frames[0].crc_ok);
    assert!(!frames[0].phase_corrected);
    assert_eq!(frames[0].signal_level, 1000);
    assert_eq!(frames[0].flight, "KLM1023");
    assert_eq!(demodulator.noise_floor(), 10);
}

#[test]
fn short_windows_are_not_searched() {
    let mut m = quiet(239, 10);
    write_frame(&mut m, 0, 0, &DF4, 1000, 10);
    let mut demodulator = Demodulator::new(Config::default());
    assert!(demodulator.detect_modes_external(&m).is_empty());
    assert_eq!(demodulator.noise_floor(), 100);
    // A frame must start before the last 240 samples.
    let mut m = quiet(500, 10);
    write_frame(&mut m, 260, 0, &KLM, 1000, 10);
    assert!(demodulator.detect_modes_external(&m).is_empty());
    assert_eq!(demodulator.noise_floor(), 10);
    let mut m = quiet(500, 10);
    write_frame(&mut m, 259, 0, &KLM, 1000, 10);
    assert_eq!(demodulator.detect_modes_external(&m).len(), 1);
}

#[test]
fn overlaid_address_must_be_known() {
    let mut m = quiet(1000, 10);
    write_frame(&mut m, 100, 0, &DF4, 1000, 10);
    let mut demodulator = Demodulator::new(Config::default());
    assert!(demodulator.try_decode_message(&m, 100, false, 1000).is_none());
    assert!(demodulator.detect_modes_external(&m).is_empty());

    // A checked frame from the same aircraft makes its address known.
    let mut intro = quiet(1000, 10);
    write_frame(&mut intro, 50, 0, &squitter_of_df4_sender(), 1000, 10);
    let heard = demodulator.detect_modes_external(&intro);
    assert_eq!(heard.len(), 1);
    assert_eq!(heard[0].icao_address(), 0x4d2023);

    let accepted = demodulator.try_decode_message(&m, 100, false, 1000).unwrap();
    assert_eq!(accepted.msg_type, 4);
    assert_eq!(accepted.icao_address(), 0x4d2023);
    assert!(accepted.crc_ok);
    assert_eq!(accepted.altitude, 23375);
    assert_eq!(accepted.signal_level, 1000);
    let frames = demodulator.detect_modes_external(&m);
    assert_eq!(frames.len(), 1);
    assert!(frames[0].crc_ok);
    assert_eq!(frames[0].msg_type, 4);
}

#[test]
fn frames_come_back_in_the_order_found() {
    let mut m = quiet(1200, 10);
    write_frame(&mut m, 100, 0, &squitter_of_df4_sender(), 1000, 10);
    // The search goes on 240 samples after the start of a long frame.
    write_frame(&mut m, 340, 0, &DF4, 900, 10);
    // And 128 samples after the start of a short one.
    write_frame(&mut m, 468, 0, &KLM, 800, 10);
    let mut demodulator = Demodulator::new(Config::default());
    let frames = demodulator.detect_modes_external(&m);
    assert_eq!(frames.len(), 3);
    assert_eq!(frames[0].msg_type, 17);
    assert_eq!(frames[0].icao_address(), 0x4d2023);
    assert_eq!(frames[0].signal_level, 1000);
    assert_eq!(frames[1].msg_type, 4);
    assert_eq!(frames[1].msg_bits, 56);
    assert_eq!(frames[1].icao_address(), 0x4d2023);
    assert!(frames[1].crc_ok);
    assert_eq!(frames[1].signal_level, 900);
    assert_eq!(frames[2].icao_address(), 0x4840D6);
    assert_eq!(frames[2].signal_level, 800);
    for frame in &frames {
        let residual = modes_checksum(&frame.msg, frame.msg_bits)
            ^ dump1090_rs::crc::extract_crc(&frame.msg, frame.msg_bits);
        if frame.msg_type == 17 {
            assert_eq!(residual, 0);
        } else {
            assert_eq!(residual, frame.icao_address());
        }
    }
}

#[test]
fn damaged_frames_are_dropped_or_repaired() {
    let mut damaged = KLM;
    damaged[2] ^= 0x01;
    let mut m = quiet(500, 10);
    write_frame(&mut m, 100, 0, &damaged, 1000, 10);
    let mut config = Config::default();
    config.fix_errors = false;
    let mut strict = Demodulator::new(config);
    assert!(strict.detect_modes_external(&m).is_empty());
    let mut repairing = Demodulator::new(Config::default());
    let frames = repairing.detect_modes_external(&m);
    assert_eq!(frames.len(), 1);
    assert_eq!(frames[0].error_bit, Some(23));
    assert_eq!(frames[0].msg, KLM);
    assert!(frames[0].crc_ok);
}

#[test]
fn marginal_signal_gets_a_second_attempt_one_sample_later() {
    let mut m = quiet(600, 100);
    write_frame(&mut m, 100, 1, &KLM, 200, 100);
    let mut demodulator = Demodulator::new(Config::default());
    let frames = demodulator.detect_modes_external(&m);
    assert_eq!(demodulator.noise_floor(), 100);
    assert_eq!(frames.len(), 1);
    assert_eq!(frames[0].msg, KLM);
    assert!(frames[0].phase_corrected);
    assert_eq!(frames[0].signal_level, 200);
    assert!(frames[0].crc_ok);

    // A strong signal gets none.
    let mut m = quiet(600, 100);
    write_frame(&mut m, 100, 1, &KLM, 1000, 100);
    let mut demodulator = Demodulator::new(Config::default());
    assert!(demodulator.detect_modes_external(&m).is_empty());

    // Nor does the search with a caller's set of addresses.
    let mut m = quiet(600, 100);
    write_frame(&mut m, 100, 1, &KLM, 200, 100);
    let demodulator = Demodulator::new(Config::default());
    let mut known = HashSet::new();
    assert!(demodulator.detect_modes_with_icao_tracking(&m, &mut known).is_empty());
    assert!(known.is_empty());
}

#[test]
fn search_with_a_set_of_the_caller_learns_addresses() {
    let mut m = quiet(1200, 10);
    write_frame(&mut m, 100, 0, &DF4, 900, 10);
    write_frame(&mut m, 400, 0, &squitter_of_df4_sender(), 1000, 10);
    write_frame(&mut m, 700, 0, &DF4, 900, 10);
    let demodulator = Demodulator::new(Config::default());
    let mut known = HashSet::new();
    let frames = demodulator.detect_modes_with_icao_tracking(&m, &mut known);
    assert_eq!(frames.len(), 2);
    assert_eq!(frames[0].msg_type, 17);
    assert_eq!(frames[1].msg_type, 4);
    assert!(frames[1].crc_ok);
    assert_eq!(frames[0].signal_level, 0);
    assert!(!frames[0].phase_corrected);
    assert!(known.contains(&0x4d2023));
    assert_eq!(known.len(), 1);
    // The set carries over to the next window.
    let mut m = quiet(600, 10);
    write_frame(&mut m, 100, 0, &DF4, 900, 10);
    assert_eq!(demodulator.detect_modes_with_icao_tracking(&m, &mut known).len(), 1);
    assert_eq!(demodulator.noise_floor(), 100);
}

#[test]
fn acceptance_follows_the_known_addresses() {
    let mut m = quiet(600, 10);
    write_frame(&mut m, 100, 0, &DF4, 900, 10);
    let mut known: HashSet<u32> = HashSet::new();
    assert!(try_decode_at(&m, 100, true, false, &mut known).is_none());
    assert!(known.is_empty());
    known.insert(0x4d2023);
    let mm = try_decode_at(&m, 100, true, false, &mut known).unwrap();
    assert!(mm.crc_ok);
    assert_eq!(mm.signal_level, 0);
    assert_eq!(known.len(), 1);
    let mut m = quiet(600, 10);
    write_frame(&mut m, 100, 0, &KLM, 900, 10);
    let mm = try_decode_at(&m, 100, true, false, &mut known).unwrap();
    assert_eq!(mm.icao_address(), 0x4840D6);
    assert!(known.contains(&0x4840D6));
    assert_eq!(known.len(), 2);
}

#[test]
fn window_may_end_before_the_frame_does() {
    let mut m = quiet(500, 10);
    write_frame(&mut m, 100, 0, &KLM, 1000, 10);
    let mut demodulator = Demodulator::new(Config::default());
    assert!(demodulator.try_decode_message(&m[..339], 100, false, 1).is_none());
    let mm = demodulator.try_decode_message(&m[..340], 100, true, 77).unwrap();
    assert!(mm.phase_corrected);
    assert_eq!(mm.signal_level, 77);
    assert!(demodulator.try_decode_message(&m, 400, false, 1).is_none());
}

#[test]
fn sample_buffer_keeps_the_end_of_the_last_read() {
    let mut buffer = SampleBuffer::new();
    assert_eq!(buffer.samples(MODES_DATA_LEN + MODES_OVERLAP).len(), MODES_DATA_LEN + MODES_OVERLAP);
    assert!(buffer.samples(MODES_DATA_LEN + MODES_OVERLAP).iter().all(|b| *b == 127));
    let chunk: Vec<u8> = (0..MODES_DATA_LEN).map(|i| (i % 251) as u8).collect();
    assert_eq!(buffer.load(&chunk), MODES_OVERLAP + MODES_DATA_LEN);
    {
        let data = buffer.samples(MODES_DATA_LEN + MODES_OVERLAP);
        assert!(data[..MODES_OVERLAP].iter().all(|b| *b == 127));
        assert_eq!(&data[MODES_OVERLAP..], &chunk[..]);
    }
    assert_eq!(buffer.load(&[1, 2, 3]), MODES_OVERLAP + 3);
    let data = buffer.samples(MODES_DATA_LEN + MODES_OVERLAP);
    assert_eq!(&data[..MODES_OVERLAP], &chunk[MODES_DATA_LEN - MODES_OVERLAP..]);
    assert_eq!(&data[MODES_OVERLAP..MODES_OVERLAP + 3], &[1, 2, 3]);
    assert!(data[MODES_OVERLAP + 3..].iter().all(|b| *b == 127));
    assert_eq!(buffer.samples(5).len(), 5);
    assert_eq!(MODES_OVERLAP, 476);
    assert_eq!(MODES_DATA_LEN, 262144);
}

#[test]
fn frame_across_two_reads_is_found() {
    let mut m = quiet(MODES_DATA_LEN, 2);
    // The frame starts 240 bytes, 120 samples, before the end of the first read.
    write_frame(&mut m, MODES_DATA_LEN / 2 - 120, 0, &KLM, 30, 2);
    let mut stream: Vec<u8> = Vec::new();
    for level in &m {
        stream.push(127 + *level as u8);
        stream.push(127);
    }
    let demodulator = Demodulator::new(Config::default());
    let mut buffer = SampleBuffer::new();
    let mut known = HashSet::new();
    let first = demodulator.process_chunk(&mut buffer, &stream[..MODES_DATA_LEN], &mut known);
    assert!(first.is_empty());
    let second = demodulator.process_chunk(&mut buffer, &stream[MODES_DATA_LEN..], &mut known);
    assert_eq!(second.len(), 1);
    assert_eq!(second[0].msg, KLM);
    assert!(known.contains(&0x4840D6));
}
