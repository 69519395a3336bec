use dump1090_rs::cpr::{cpr_dlon, cpr_mod, cpr_n, cpr_nl, solve_global, Angle, NL_THRESHOLDS};

fn is_fraction(angle: Angle, num: i64, den: i64) -> bool {
    angle.den > 0 && (angle.num as i128) * (den as i128) == (num as i128) * (angle.den as i128)
}

fn degrees(angle: Angle) -> f64 {
    angle.num as f64 / angle.den as f64
}

#[test]
fn test_cpr_nl() {
    assert_eq!(cpr_nl(Angle::from_degrees(0)), 59);
    assert_eq!(cpr_nl(Angle::from_degrees(45)), 42);
    assert_eq!(cpr_nl(Angle::from_degrees(89)), 1);
}

#[test]
fn test_cpr_mod() {
    assert_eq!(cpr_mod(5, 3), 2);
    assert_eq!(cpr_mod(-1, 3), 2);
    assert_eq!(cpr_mod(-5, 3), 1);
}

#[test]
fn residues_are_never_negative() {
    for a in -200..200 {
        for b in [1, 2, 59, 60] {
            let r = cpr_mod(a, b);
            assert!(r >= 0 && r < b);
            assert_eq!((a - r) % b, 0);
        }
    }
    assert_eq!(cpr_mod(i32::MIN, 60), 52);
    assert_eq!(cpr_mod(i32::MAX, 59), 54);
}

#[test]
fn zones_change_exactly_at_the_thresholds() {
    assert_eq!(cpr_nl(Angle { num: 1047047129, den: 100_000_000 }), 59);
    assert_eq!(cpr_nl(Angle { num: 1047047130, den: 100_000_000 }), 58);
    assert_eq!(cpr_nl(Angle { num: 8699999999, den: 100_000_000 }), 2);
    assert_eq!(cpr_nl(Angle { num: 8700000000, den: 100_000_000 }), 1);
    assert_eq!(cpr_nl(Angle::from_degrees(87)), 1);
    assert_eq!(cpr_nl(Angle::from_degrees(-45)), 42);
    assert_eq!(cpr_nl(Angle::from_degrees(-89)), 1);
    assert_eq!(cpr_nl(Angle::from_degrees(90)), 1);
    for (k, threshold) in NL_THRESHOLDS.iter().enumerate() {
        let at = Angle { num: *threshold as i64, den: 100_000_000 };
        let below = Angle { num: *threshold as i64 - 1, den: 100_000_000 };
        assert_eq!(cpr_nl(at), 58 - k as i32);
        assert_eq!(cpr_nl(below), 59 - k as i32);
    }
}

#[test]
fn zones_do_not_grow_with_latitude() {
    let mut last = 59;
    for tenth in 0..=900 {
        let nl = cpr_nl(Angle { num: tenth, den: 10 });
        assert!(nl <= last);
        assert_eq!(nl, cpr_nl(Angle { num: -tenth, den: 10 }));
        last = nl;
    }
    assert_eq!(last, 1);
}

#[test]
fn zones_of_the_two_encodings() {
    let equator = Angle::zero();
    assert_eq!(cpr_n(equator, false), 59);
    assert_eq!(cpr_n(equator, true), 58);
    let pole = Angle::from_degrees(89);
    assert_eq!(cpr_n(pole, false), 1);
    assert_eq!(cpr_n(pole, true), 1);
    assert!(is_fraction(cpr_dlon(equator, false), 360, 59));
    assert!(is_fraction(cpr_dlon(Angle::from_degrees(45), true), 360, 41));
    assert!(is_fraction(cpr_dlon(pole, true), 360, 1));
}

#[test]
fn pair_solves_to_the_position_of_the_newer_fragment() {
    let position = solve_global(93000, 51372, 74158, 50194, true).unwrap();
    assert!(is_fraction(position.lat, 428091, 8192));
    assert!(is_fraction(position.lon, 64215, 16384));
    assert!(degrees(position.lat) > 51.0 && degrees(position.lat) < 52.5);
    assert!((degrees(position.lat) - 52.2572021484375).abs() < 1e-9);
    assert!((degrees(position.lon) - 3.91937255859375).abs() < 1e-9);

    let position = solve_global(93000, 51372, 74158, 50194, false).unwrap();
    assert!(is_fraction(position.lat, 25261515, 483328));
    assert!(is_fraction(position.lon, 225873, 57344));
}

#[test]
fn latitudes_in_different_bands_give_no_position() {
    // The two latitudes lie on either side of 10.4704713 degrees.
    assert!(solve_global(97659, 1000, 93846, 1000, true).is_none());
    assert!(solve_global(97659, 1000, 93846, 1000, false).is_none());
    // The even latitude is 87 degrees, the odd one just below.
    assert!(solve_global(65536, 1000, 33860, 1000, true).is_none());
    assert!(solve_global(65536, 1000, 33860, 1000, false).is_none());
}

#[test]
fn southern_and_western_positions_are_negative() {
    let position = solve_global(45875, 1000, 58218, 1000, true).unwrap();
    assert!(is_fraction(position.lat, -2221671, 65536));
    assert!(is_fraction(position.lon, 5625, 100352));
    let position = solve_global(93000, 65802, 74158, 65802, true).unwrap();
    assert!(is_fraction(position.lon, -163175, 32768));
    assert!(degrees(position.lon) > -180.0 && degrees(position.lon) <= 180.0);
}

#[test]
fn solved_longitudes_stay_in_range() {
    let mut seed: u64 = 12345;
    let mut solved = 0;
    for _ in 0..2000 {
        let mut raw = [0u32; 4];
        for value in raw.iter_mut() {
            seed = seed.wrapping_mul(6364136223846793005).wrapping_add(1442695040888963407);
            *value = ((seed >> 33) % 131072) as u32;
        }
        for even_newer in [true, false] {
            if let Some(p) = solve_global(raw[0], raw[1], raw[2], raw[3], even_newer) {
                solved += 1;
                assert!(p.lon.den > 0 && p.lat.den > 0);
                assert!(p.lon.num > -180 * p.lon.den && p.lon.num <= 180 * p.lon.den);
                assert!(p.lat.num > -90 * p.lat.den && p.lat.num <= 90 * p.lat.den);
            }
        }
    }
    assert!(solved > 0);
}

#[test]
fn latitude_off_the_globe_gives_no_position() {
    // Zone index 42: both latitudes come out near 256 degrees, in the same band.
    assert!(solve_global(93000, 51372, 0, 50194, true).is_none());
    assert!(solve_global(93000, 51372, 0, 50194, false).is_none());
}

#[test]
fn raw_coordinates_have_17_bits() {
    assert!(solve_global(93000, 51372, 74158, 50194, true).is_some());
    assert!(solve_global(131072, 51372, 74158, 50194, true).is_none());
    assert!(solve_global(93000, 131072, 74158, 50194, true).is_none());
    assert!(solve_global(93000, 51372, 131072, 50194, true).is_none());
    assert!(solve_global(93000, 51372, 74158, u32::MAX, true).is_none());
}
