use dump1090_rs::signal::{check_phase_ambiguity, SignalProcessor, SignalStats};

#[test]
fn test_signal_processor_noise_floor() {
    let mut sp = SignalProcessor::new();
    let magnitude: Vec<u16> = (0..1000).map(|i| 50 + (i % 20) as u16).collect();
    sp.update_noise_floor(&magnitude);
    assert!(sp.noise_floor() >= 40 && sp.noise_floor() <= 80);
}

#[test]
fn test_adaptive_threshold() {
    let mut sp = SignalProcessor::new();
    sp.set_noise_floor(100);
    let threshold = sp.adaptive_threshold();
    assert!(threshold >= 200 && threshold <= 300);
}

#[test]
fn noise_floor_starts_at_100() {
    assert_eq!(SignalProcessor::new().noise_floor(), 100);
    assert_eq!(SignalProcessor::default().noise_floor(), 100);
}

#[test]
fn noise_estimate_is_the_lower_quartile_of_every_16th_sample() {
    let mut sp = SignalProcessor::new();
    let magnitude: Vec<u16> = (0..1000).map(|i| 50 + (i % 20) as u16).collect();
    sp.update_noise_floor(&magnitude);
    assert_eq!(sp.noise_floor(), 54);
}

#[test]
fn noise_samples_are_sorted_before_the_quartile_is_taken() {
    // Every 16th sample descends from 1000 to 856; the third smallest is 888,
    // while the third in the order given is 968.
    let mut sp = SignalProcessor::new();
    let magnitude: Vec<u16> = (0..160).map(|i| 1000 - i as u16).collect();
    sp.update_noise_floor(&magnitude);
    assert_eq!(sp.noise_floor(), 888);
}

#[test]
fn short_windows_give_no_noise_estimate() {
    let mut sp = SignalProcessor::new();
    sp.update_noise_floor(&[5u16; 99]);
    assert_eq!(sp.noise_floor(), 100);
    sp.update_noise_floor(&[7u16; 100]);
    assert_eq!(sp.noise_floor(), 7);
}

#[test]
fn noise_floor_is_the_mean_of_the_estimates() {
    let mut sp = SignalProcessor::new();
    sp.update_noise_floor(&[10u16; 100]);
    sp.update_noise_floor(&[21u16; 100]);
    assert_eq!(sp.noise_floor(), 15);
    sp.update_noise_floor(&[30u16; 100]);
    assert_eq!(sp.noise_floor(), 20);
}

#[test]
fn only_the_last_256_estimates_count() {
    let mut sp = SignalProcessor::new();
    sp.update_noise_floor(&[60000u16; 100]);
    for _ in 0..255 {
        sp.update_noise_floor(&[0u16; 100]);
    }
    assert_eq!(sp.noise_floor(), 234);
    sp.update_noise_floor(&[0u16; 100]);
    assert_eq!(sp.noise_floor(), 0);
}

#[test]
fn adaptive_threshold_is_two_and_a_half_noise_floors() {
    let mut sp = SignalProcessor::new();
    assert_eq!(sp.adaptive_threshold(), 250);
    sp.set_noise_floor(3);
    assert_eq!(sp.adaptive_threshold(), 7);
    sp.set_noise_floor(0);
    assert_eq!(sp.adaptive_threshold(), 0);
    sp.set_noise_floor(26214);
    assert_eq!(sp.adaptive_threshold(), 65535);
    sp.set_noise_floor(26213);
    assert_eq!(sp.adaptive_threshold(), 65532);
    sp.set_noise_floor(65535);
    assert_eq!(sp.adaptive_threshold(), 65535);
}

#[test]
fn phase_correction_is_tried_between_2_and_8_decibels() {
    let mut sp = SignalProcessor::new();
    sp.set_noise_floor(100);
    assert!(!sp.should_try_phase_correction(0));
    assert!(!sp.should_try_phase_correction(100));
    assert!(!sp.should_try_phase_correction(125));
    assert!(sp.should_try_phase_correction(126));
    assert!(sp.should_try_phase_correction(200));
    assert!(sp.should_try_phase_correction(251));
    assert!(!sp.should_try_phase_correction(252));
    assert!(!sp.should_try_phase_correction(1000));
    assert!(!sp.should_try_phase_correction(65535));
    sp.set_noise_floor(1000);
    assert!(!sp.should_try_phase_correction(1258));
    assert!(sp.should_try_phase_correction(1259));
    assert!(sp.should_try_phase_correction(2511));
    assert!(!sp.should_try_phase_correction(2512));
    sp.set_noise_floor(7);
    assert!(!sp.should_try_phase_correction(8));
    assert!(sp.should_try_phase_correction(9));
    assert!(sp.should_try_phase_correction(17));
    assert!(!sp.should_try_phase_correction(18));
}

#[test]
fn phase_correction_needs_a_noise_floor() {
    let mut sp = SignalProcessor::new();
    sp.set_noise_floor(0);
    assert!(!sp.should_try_phase_correction(0));
    assert!(!sp.should_try_phase_correction(1));
    assert!(!sp.should_try_phase_correction(65535));
    sp.set_noise_floor(65535);
    assert!(!sp.should_try_phase_correction(65535));
    sp.set_noise_floor(40000);
    assert!(sp.should_try_phase_correction(65535));
}

#[test]
fn marginal_band_agrees_with_decibels_away_from_its_edges() {
    let mut sp = SignalProcessor::new();
    for noise in [1u16, 13, 100, 999, 20000] {
        sp.set_noise_floor(noise);
        for signal in (0..=65535u32).step_by(7) {
            let snr = if signal as u16 <= noise {
                0.0
            } else {
                20.0 * (signal as f64 / noise as f64).log10()
            };
            if (snr - 2.0).abs() > 1e-6 && (snr - 8.0).abs() > 1e-6 {
                assert_eq!(
                    sp.should_try_phase_correction(signal as u16),
                    snr >= 2.0 && snr <= 8.0
                );
            }
        }
    }
}

#[test]
fn signal_stats_average_the_peaks() {
    let mut sp = SignalProcessor::new();
    sp.set_noise_floor(40);
    assert_eq!(sp.get_signal_stats(&[]), SignalStats::default());
    assert_eq!(
        sp.get_signal_stats(&[100, 200, 300, 401]),
        SignalStats { signal_level: 250, noise_level: 40, phase_corrected: false }
    );
    assert_eq!(
        sp.get_signal_stats(&[65535, 65535, 65535, 65535]),
        SignalStats { signal_level: 65535, noise_level: 40, phase_corrected: false }
    );
    assert_eq!(
        SignalStats::default(),
        SignalStats { signal_level: 0, noise_level: 0, phase_corrected: false }
    );
}

#[test]
fn ambiguity_counts_close_half_bits() {
    // 56 bits, all told apart clearly.
    let clear: Vec<u16> = (0..112).map(|i| if i % 2 == 0 { 1000 } else { 100 }).collect();
    assert!(!check_phase_ambiguity(&clear, 0, 56));
    // 56 bits, all a guess.
    let flat = vec![500u16; 112];
    assert!(check_phase_ambiguity(&flat, 0, 56));
    // 8 of 56 bits ambiguous is no more than 15 %, 9 are.
    let mut some = clear.clone();
    for bit in 0..8 {
        some[2 * bit + 1] = 1000;
    }
    assert!(!check_phase_ambiguity(&some, 0, 56));
    some[17] = 1000;
    assert!(check_phase_ambiguity(&some, 0, 56));
    // Only the first 56 bits are looked at.
    let mut long = clear.clone();
    long.extend(vec![500u16; 112]);
    assert!(!check_phase_ambiguity(&long, 0, 112));
    // Bits outside the window do not count.
    assert!(!check_phase_ambiguity(&flat, 112, 56));
    assert!(!check_phase_ambiguity(&flat, usize::MAX, 56));
    assert!(!check_phase_ambiguity(&flat, 0, 0));
    assert!(!check_phase_ambiguity(&flat, 110, 56));
    assert!(check_phase_ambiguity(&flat, 110, 1));
    // A difference of a tenth of the mean is clear enough, less is not.
    assert!(!check_phase_ambiguity(&[105, 95], 0, 1));
    assert!(check_phase_ambiguity(&[104, 96], 0, 1));
    assert!(check_phase_ambiguity(&[0, 0, 0, 0], 0, 2));
}
