use dump1090_rs::magnitude::{
    compute_magnitude_vector, sample_offset, signed_to_unsigned, MagnitudeLut,
};
use dump1090_rs::math::integer_sqrt;

#[test]
fn test_magnitude_lut() {
    let lut = MagnitudeLut::new();
    assert_eq!(lut.lookup(0, 0), 0);
    let max_mag = lut.lookup(128, 128);
    assert!(max_mag > 65000);
    let single = lut.lookup(128, 0);
    assert!((single as i32 - 46080).abs() < 10);
}

#[test]
fn test_compute_magnitude() {
    let lut = MagnitudeLut::new();
    let data = vec![127u8, 127, 127, 127];
    let mag = compute_magnitude_vector(&data, &lut);
    assert_eq!(mag.len(), 2);
    assert!(mag[0] < 100);
    let data = vec![255u8, 255, 0, 0];
    let mag = compute_magnitude_vector(&data, &lut);
    assert!(mag[0] > 40000);
}

#[test]
fn magnitudes_have_exact_values() {
    let lut = MagnitudeLut::new();
    assert_eq!(lut.lookup(128, 128), 65167);
    assert_eq!(lut.lookup(128, 0), 46080);
    assert_eq!(lut.lookup(3, 4), 1800);
    assert_eq!(lut.lookup(1, 1), 509);
    assert_eq!(lut.lookup(1, 0), 360);
    assert_eq!(lut.lookup(100, 37), 38385);
}

#[test]
fn magnitude_table_is_symmetric_and_rounded() {
    let lut = MagnitudeLut::new();
    for i in 0..=128u8 {
        for q in 0..=128u8 {
            let mag = lut.lookup(i, q);
            assert_eq!(mag, lut.lookup(q, i));
            let exact = ((i as f64).powi(2) + (q as f64).powi(2)).sqrt() * 360.0;
            assert_eq!(mag, exact.round() as u16);
        }
    }
}

#[test]
fn magnitude_vector_takes_pairs() {
    let lut = MagnitudeLut::new();
    assert_eq!(compute_magnitude_vector(&[], &lut), Vec::<u16>::new());
    assert_eq!(compute_magnitude_vector(&[200], &lut), Vec::<u16>::new());
    assert_eq!(compute_magnitude_vector(&[130, 123, 99], &lut), vec![1800]);
    assert_eq!(
        compute_magnitude_vector(&[255, 255, 0, 0, 127, 128, 126, 127], &lut),
        vec![65167, 64658, 360, 360]
    );
}

#[test]
fn sample_offsets_are_distances_from_the_centre() {
    assert_eq!(sample_offset(127), 0);
    assert_eq!(sample_offset(0), 127);
    assert_eq!(sample_offset(255), 128);
    assert_eq!(sample_offset(126), 1);
    assert_eq!(sample_offset(128), 1);
}

#[test]
fn signed_samples_shift_by_128() {
    assert_eq!(signed_to_unsigned(&[-128, -1, 0, 1, 127]), vec![0, 127, 128, 129, 255]);
    assert_eq!(signed_to_unsigned(&[]), Vec::<u8>::new());
}

#[test]
fn integer_square_roots_round_down() {
    assert_eq!(integer_sqrt(0), 0);
    assert_eq!(integer_sqrt(1), 1);
    assert_eq!(integer_sqrt(3), 1);
    assert_eq!(integer_sqrt(4), 2);
    assert_eq!(integer_sqrt(99), 9);
    assert_eq!(integer_sqrt(100), 10);
    assert_eq!(integer_sqrt(16986931200), 130333);
    assert_eq!(integer_sqrt(0xFFFF_FFFF_FFFF), 16777215);
}
