use dump1090_rs::config::{Config, DebugFlags};

#[test]
fn default_settings() {
    let config = Config::default();
    assert_eq!(config.dev_index, 0);
    assert_eq!(config.gain, 999999);
    assert!(!config.enable_agc);
    assert_eq!(config.freq, 1_090_000_000);
    assert_eq!(config.filename, None);
    assert!(!config.loop_file);
    assert!(config.fix_errors);
    assert!(config.check_crc);
    assert!(!config.aggressive);
    assert!(config.metric);
    assert_eq!(config.interactive_rows, 15);
    assert_eq!(config.interactive_ttl, 60);
    assert_eq!(config.min_messages, 2);
    assert_eq!(config.net_ro_port, 30002);
    assert_eq!(config.net_ri_port, 30001);
    assert_eq!(config.net_http_port, 8080);
    assert_eq!(config.net_sbs_port, 30003);
    assert_eq!(config.debug, DebugFlags::default());
    assert!(!config.stats);
}

#[test]
fn debug_letters_switch_flags_on() {
    let none = DebugFlags::default();
    assert!(!none.demod && !none.demod_err && !none.bad_crc && !none.good_crc);
    assert!(!none.no_preamble && !none.net && !none.js);
    assert!(none.with_letter('D').demod);
    assert!(none.with_letter('d').demod_err);
    assert!(none.with_letter('C').good_crc);
    assert!(none.with_letter('c').bad_crc);
    assert!(none.with_letter('p').no_preamble);
    assert!(none.with_letter('n').net);
    assert!(none.with_letter('j').js);
    assert_eq!(none.with_letter('x'), none);
    let some = none.with_letters("Dcx\u{e9}j");
    assert_eq!(
        some,
        DebugFlags {
            demod: true,
            demod_err: false,
            bad_crc: true,
            good_crc: false,
            no_preamble: false,
            net: false,
            js: true,
        }
    );
    assert_eq!(some.with_letters(""), some);
}

#[test]
fn unchecked_frames_are_tracked_only_on_request() {
    let mut config = Config::default();
    assert!(config.tracks(true));
    assert!(!config.tracks(false));
    config.check_crc = false;
    assert!(config.tracks(true));
    assert!(config.tracks(false));
}
