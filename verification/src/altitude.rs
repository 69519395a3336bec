//! Altitude fields: the 25-foot encoding and the Gillham (Gray) encoding.

use crate::bits::{bit, byte_at, cut, field, word};
use vstd::arithmetic::power2::lemma2_to64;
use vstd::prelude::*;

verus! {

/// Unit of an altitude.
#[derive(Debug, Clone, Copy, PartialEq, Eq, Structural)]
pub enum AltitudeUnit {
    Feet,
    Meters,
}

/// Lowest altitude that a Gillham code may stand for, in feet.
pub const GILLHAM_MIN_ALTITUDE: i32 = -1200;

/// Highest altitude that a Gillham code may stand for, in feet.
pub const GILLHAM_MAX_ALTITUDE: i32 = 126700;

/// The number whose reflected binary (Gray) code is `gray`: each bit is the
/// XOR of the Gray bits at and above it.
pub open spec fn spec_gray_to_binary(gray: u32) -> u32 {
    let b16 = gray ^ (gray >> 16);
    let b8 = b16 ^ (b16 >> 8);
    let b4 = b8 ^ (b8 >> 4);
    let b2 = b4 ^ (b4 >> 2);
    b2 ^ (b2 >> 1)
}

/// The reflected binary (Gray) code of a number.
pub open spec fn spec_binary_to_gray(binary: u32) -> u32 {
    binary ^ (binary >> 1)
}

/// The altitude of a 25-foot count: `25 n - 1000` feet.
pub open spec fn spec_altitude_25ft(n: int) -> int {
    25 * n - 1000
}

/// The 500-foot band of a Gillham code. The code's bits are, from bit 10
/// down, D4 D2 B4 B2 B1 A4 A2 A1 C4 C2 C1. The band is the number whose Gray
/// code is D4 D2 D1 B4 B2 B1, where D1 is not sent and counts as zero.
pub open spec fn spec_gillham_band(code: u16) -> int {
    spec_gray_to_binary(((((code >> 9) & 3) << 4) | ((code >> 6) & 7)) as u32) as int
}

/// The 100-foot step of a Gillham code within its band, 0 to 4. The number
/// whose Gray code is C4 C2 C1 A4 A2 is taken modulo 5, and A1 mirrors it.
pub open spec fn spec_gillham_hundreds(code: u16) -> int {
    let step = spec_gray_to_binary((((code & 7) << 2) | ((code >> 4) & 3)) as u32) as int % 5;
    if code & 8 != 0 {
        4 - step
    } else {
        step
    }
}

/// The altitude of a Gillham code before the range check.
pub open spec fn spec_gillham_raw(code: u16) -> int {
    500 * spec_gillham_band(code) + 100 * spec_gillham_hundreds(code) - 1300
}

/// The altitude of a Gillham code, in feet: none for the code 0 and for an
/// altitude outside -1200 to 126700.
pub open spec fn spec_decode_gillham(code: u16) -> Option<int> {
    if code == 0 || spec_gillham_raw(code) < -1200 || spec_gillham_raw(code) > 126700 {
        None
    } else {
        Some(spec_gillham_raw(code))
    }
}

/// An altitude that some Gillham code stands for: on the 100-foot grid, and
/// in a 500-foot band whose Gray code has no D1 bit.
pub open spec fn gillham_representable(altitude: int) -> bool {
    &&& -1200 <= altitude <= 126700
    &&& altitude % 100 == 0
    &&& (altitude + 1300) / 500 < 64
    &&& spec_binary_to_gray(((altitude + 1300) / 500) as u32) & 8 == 0
}

/// The Gillham code that stands for an altitude: the band's Gray code in the
/// D and B bits, the step's Gray code in the C and A4, A2 bits, A1 clear.
pub open spec fn spec_encode_gillham(altitude: int) -> u16 {
    let band = spec_binary_to_gray(((altitude + 1300) / 500) as u32);
    let step = spec_binary_to_gray((((altitude + 1300) % 500) / 100) as u32);
    ((((band >> 4) & 3) << 9) | ((band & 7) << 6) | ((step & 3) << 4) | ((step >> 2) & 7)) as u16
}

/// The 25-foot count of a 13-bit altitude field: the field's bits without
/// the M bit (bit 25) and the Q bit (bit 27).
pub open spec fn spec_ac13_count(frame: Seq<u8>) -> int {
    field(frame, 19, 6) * 32 + bit(frame, 26) * 16 + field(frame, 28, 4)
}

/// The Gillham code of a 13-bit altitude field. The field holds, from bit 19
/// on, C1 A1 C2 A2 C4 A4 M B1 Q D2 B2 D4 B4.
pub open spec fn spec_ac13_gillham_code(frame: Seq<u8>) -> u16 {
    (bit(frame, 30) * 1024 + bit(frame, 28) * 512 + bit(frame, 31) * 256 + bit(frame, 29) * 128
        + bit(frame, 26) * 64 + bit(frame, 24) * 32 + bit(frame, 22) * 16 + bit(frame, 20) * 8
        + bit(frame, 23) * 4 + bit(frame, 21) * 2 + bit(frame, 19)) as u16
}

/// The altitude that the 13-bit altitude field of a frame (bits 19 to 31)
/// stands for, with its unit. With the M bit set the field counts 25-metre
/// steps. With M clear and Q set it counts 25-foot steps from -1000 feet.
/// With both clear it holds a Gillham code, and an invalid code gives 0.
pub open spec fn spec_decode_ac13(frame: Seq<u8>) -> (int, AltitudeUnit) {
    if bit(frame, 25) == 1 {
        (25 * spec_ac13_count(frame), AltitudeUnit::Meters)
    } else if bit(frame, 27) == 1 {
        (spec_altitude_25ft(spec_ac13_count(frame)), AltitudeUnit::Feet)
    } else {
        match spec_decode_gillham(spec_ac13_gillham_code(frame)) {
            Some(altitude) => (altitude, AltitudeUnit::Feet),
            None => (0, AltitudeUnit::Feet),
        }
    }
}

/// The 25-foot count of the 12-bit altitude field of an airborne position
/// (bits 40 to 51): the field's bits without the Q bit (bit 47).
pub open spec fn spec_ac12_count(frame: Seq<u8>) -> int {
    field(frame, 40, 7) * 16 + field(frame, 48, 4)
}

/// The Gillham code of a 12-bit altitude field. The field holds, from bit 40
/// on, B1 A4 C4 A2 C2 A1 C1 Q D4 B4 D2 B2.
pub open spec fn spec_ac12_gillham_code(frame: Seq<u8>) -> u16 {
    (bit(frame, 48) * 1024 + bit(frame, 50) * 512 + bit(frame, 49) * 256 + bit(frame, 51) * 128
        + bit(frame, 40) * 64 + bit(frame, 41) * 32 + bit(frame, 43) * 16 + bit(frame, 45) * 8
        + bit(frame, 42) * 4 + bit(frame, 44) * 2 + bit(frame, 46)) as u16
}

/// The altitude in feet that the 12-bit altitude field of an airborne
/// position stands for. With the Q bit set the field counts 25-foot steps
/// from -1000 feet; otherwise it holds a Gillham code, and an invalid code
/// gives 0.
pub open spec fn spec_decode_ac12(frame: Seq<u8>) -> int {
    if bit(frame, 47) == 1 {
        spec_altitude_25ft(spec_ac12_count(frame))
    } else {
        match spec_decode_gillham(spec_ac12_gillham_code(frame)) {
            Some(altitude) => altitude,
            None => 0,
        }
    }
}

proof fn lemma_gray(gray: u32)
    by (bit_vector)
    ensures
        spec_binary_to_gray(spec_gray_to_binary(gray)) == gray,
        spec_gray_to_binary(spec_binary_to_gray(gray)) == gray,
        gray < 64 ==> spec_gray_to_binary(gray) < 64,
        gray < 32 ==> spec_gray_to_binary(gray) < 32,
{
}

/// Converts a reflected binary (Gray) code to the number it stands for.
pub fn gray_to_binary(gray: u32) -> (binary: u32)
    ensures
        binary == spec_gray_to_binary(gray),
        spec_binary_to_gray(binary) == gray,
{
    proof {
        lemma_gray(gray);
    }
    let mut binary = gray;
    binary ^= binary >> 16;
    binary ^= binary >> 8;
    binary ^= binary >> 4;
    binary ^= binary >> 2;
    binary ^= binary >> 1;
    binary
}

/// The altitude of a 25-foot count: `25 n - 1000` feet.
pub fn altitude_from_25ft_count(n: u16) -> (altitude: i32)
    ensures
        altitude as int == spec_altitude_25ft(n as int),
{
    n as i32 * 25 - 1000
}

proof fn lemma_gillham_bits(code: u16, band_gray: u32, step_gray: u32)
    by (bit_vector)
    requires
        band_gray == (if code & 0x400 != 0 { 0x20u32 } else { 0u32 })
            | (if code & 0x200 != 0 { 0x10u32 } else { 0u32 })
            | (if code & 0x100 != 0 { 0x04u32 } else { 0u32 })
            | (if code & 0x080 != 0 { 0x02u32 } else { 0u32 })
            | (if code & 0x040 != 0 { 0x01u32 } else { 0u32 }),
        step_gray == (if code & 0x004 != 0 { 0x10u32 } else { 0u32 })
            | (if code & 0x002 != 0 { 0x08u32 } else { 0u32 })
            | (if code & 0x001 != 0 { 0x04u32 } else { 0u32 })
            | (if code & 0x020 != 0 { 0x02u32 } else { 0u32 })
            | (if code & 0x010 != 0 { 0x01u32 } else { 0u32 }),
    ensures
        band_gray == ((((code >> 9) & 3) << 4) | ((code >> 6) & 7)) as u32,
        step_gray == (((code & 7) << 2) | ((code >> 4) & 3)) as u32,
        band_gray < 64,
        step_gray < 32,
{
}

/// Decodes a Gillham altitude code, as legacy transponders send it when the
/// Q bit is clear.
pub fn decode_gillham_altitude(code: u16) -> (altitude: Option<i32>)
    ensures
        match altitude {
            Some(a) => spec_decode_gillham(code) == Some(a as int),
            None => spec_decode_gillham(code) is None,
        },
{
    if code == 0 {
        return None;
    }
    let mut band_gray: u32 = 0;
    if code & 0x400 != 0 {
        band_gray |= 0x20;
    }
    if code & 0x200 != 0 {
        band_gray |= 0x10;
    }
    if code & 0x100 != 0 {
        band_gray |= 0x04;
    }
    if code & 0x080 != 0 {
        band_gray |= 0x02;
    }
    if code & 0x040 != 0 {
        band_gray |= 0x01;
    }
    let mut step_gray: u32 = 0;
    if code & 0x004 != 0 {
        step_gray |= 0x10;
    }
    if code & 0x002 != 0 {
        step_gray |= 0x08;
    }
    if code & 0x001 != 0 {
        step_gray |= 0x04;
    }
    if code & 0x020 != 0 {
        step_gray |= 0x02;
    }
    if code & 0x010 != 0 {
        step_gray |= 0x01;
    }
    proof {
        lemma_or_zero();
        lemma_gillham_bits(code, band_gray, step_gray);
        lemma_gray(band_gray);
        lemma_gray(step_gray);
    }
    let five_hundreds: u32 = gray_to_binary(band_gray);
    let one_hundreds: u32 = gray_to_binary(step_gray);
    let hundreds: u32 = if code & 0x008 != 0 {
        4 - one_hundreds % 5
    } else {
        one_hundreds % 5
    };
    let altitude: i32 = (five_hundreds * 500 + hundreds * 100) as i32 - 1300;
    if altitude >= GILLHAM_MIN_ALTITUDE && altitude <= GILLHAM_MAX_ALTITUDE {
        Some(altitude)
    } else {
        None
    }
}

proof fn lemma_or_zero()
    by (bit_vector)
    ensures
        forall|a: u32| #[trigger] (0u32 | a) == a,
        forall|a: u32| #[trigger] (a | 0u32) == a,
{
}

proof fn lemma_ac13_bits(b2: u8, b3: u8, b4: u8, b5: u8, b6: u8)
    by (bit_vector)
    ensures
        ((b3 & 0x40) != 0) == (cut(word(b3, b4, b5, b6), 30u32, 0x1u32) == 1),
        ((b3 & 0x10) != 0) == (cut(word(b3, b4, b5, b6), 28u32, 0x1u32) == 1),
        (((b2 & 0x1F) as u32) << 6) | (((b3 & 0x80) >> 2) as u32) | (((b3 & 0x20) >> 1) as u32) | (
        (b3 & 0x0F) as u32) == cut(word(b2, b3, b4, b5), 23u32, 0x3fu32) * 32 + cut(word(b3, b4, b5, b6), 29u32, 0x1u32) * 16 + cut(word(b3, b4, b5, b6), 24u32, 0xfu32),
        cut(word(b2, b3, b4, b5), 23u32, 0x3fu32) * 32 + cut(word(b3, b4, b5, b6), 29u32, 0x1u32) * 16 + cut(word(b3, b4, b5, b6), 24u32, 0xfu32) < 2048,
        ((((b3 >> 1) & 1) as u16) << 10) | ((((b3 >> 3) & 1) as u16) << 9) | (((b3 & 1) as u16)
            << 8) | ((((b3 >> 2) & 1) as u16) << 7) | ((((b3 >> 5) & 1) as u16) << 6) | ((((b3
            >> 7) & 1) as u16) << 5) | ((((b2 >> 1) & 1) as u16) << 4) | ((((b2 >> 3) & 1) as u16)
            << 3) | (((b2 & 1) as u16) << 2) | ((((b2 >> 2) & 1) as u16) << 1) | (((b2 >> 4)
            & 1) as u16) == (cut(word(b3, b4, b5, b6), 25u32, 0x1u32) * 1024 + cut(word(b3, b4, b5, b6), 27u32, 0x1u32) * 512 + cut(word(b3, b4, b5, b6), 24u32, 0x1u32) * 256 + cut(word(b3, b4, b5, b6), 26u32, 0x1u32) * 128 + cut(word(b3, b4, b5, b6), 29u32, 0x1u32) * 64 + cut(word(b3, b4, b5, b6), 31u32, 0x1u32) * 32 + cut(word(b2, b3, b4, b5), 25u32, 0x1u32) * 16 + cut(word(b2, b3, b4, b5), 27u32, 0x1u32) * 8 + cut(word(b2, b3, b4, b5), 24u32, 0x1u32) * 4 + cut(word(b2, b3, b4, b5), 26u32, 0x1u32) * 2 + cut(word(b2, b3, b4, b5), 28u32, 0x1u32)) as u16,
{
}

/// Decodes the 13-bit altitude field of a surveillance reply and records
/// the unit.
pub fn decode_ac13_field(msg: &[u8], unit: &mut AltitudeUnit) -> (altitude: i32)
    requires
        msg@.len() >= 4,
    ensures
        (altitude as int, *final(unit)) == spec_decode_ac13(msg@),
        bit(msg@, 25) == 0 && bit(msg@, 27) == 1 ==> -1000 <= altitude <= 50175,
{
    let b2: u8 = msg[2];
    let b3: u8 = msg[3];
    proof {
        lemma2_to64();
        let f = msg@;
        lemma_ac13_bits(b2, b3, byte_at(f, 4), byte_at(f, 5), byte_at(f, 6));
    }
    let m_bit: bool = (b3 & 0x40) != 0;
    let q_bit: bool = (b3 & 0x10) != 0;
    if m_bit || q_bit {
        let n: u32 = (((b2 & 0x1F) as u32) << 6) | (((b3 & 0x80) >> 2) as u32) | (((b3 & 0x20)
            >> 1) as u32) | ((b3 & 0x0F) as u32);
        if m_bit {
            *unit = AltitudeUnit::Meters;
            n as i32 * 25
        } else {
            *unit = AltitudeUnit::Feet;
            altitude_from_25ft_count(n as u16)
        }
    } else {
        *unit = AltitudeUnit::Feet;
        let code: u16 = ((((b3 >> 1) & 1) as u16) << 10) | ((((b3 >> 3) & 1) as u16) << 9) | (((b3
            & 1) as u16) << 8) | ((((b3 >> 2) & 1) as u16) << 7) | ((((b3 >> 5) & 1) as u16) << 6)
            | ((((b3 >> 7) & 1) as u16) << 5) | ((((b2 >> 1) & 1) as u16) << 4) | ((((b2 >> 3)
            & 1) as u16) << 3) | (((b2 & 1) as u16) << 2) | ((((b2 >> 2) & 1) as u16) << 1) | (((b2
            >> 4) & 1) as u16);
        match decode_gillham_altitude(code) {
            Some(altitude) => altitude,
            None => 0,
        }
    }
}

proof fn lemma_ac12_bits(b5: u8, b6: u8, b7: u8, b8: u8, b9: u8)
    by (bit_vector)
    ensures
        ((b5 & 0x01) != 0) == (cut(word(b5, b6, b7, b8), 24u32, 0x1u32) == 1),
        (((b5 >> 1) as u32) << 4) | (((b6 & 0xF0) >> 4) as u32) == cut(word(b5, b6, b7, b8), 25u32, 0x7fu32) * 16 + cut(word(b6, b7, b8, b9), 28u32, 0xfu32),
        cut(word(b5, b6, b7, b8), 25u32, 0x7fu32) * 16 + cut(word(b6, b7, b8, b9), 28u32, 0xfu32) < 2048,
        ((((b6 >> 7) & 1) as u16) << 10) | ((((b6 >> 5) & 1) as u16) << 9) | ((((b6 >> 6) & 1) as u16)
            << 8) | ((((b6 >> 4) & 1) as u16) << 7) | ((((b5 >> 7) & 1) as u16) << 6) | ((((b5
            >> 6) & 1) as u16) << 5) | ((((b5 >> 4) & 1) as u16) << 4) | ((((b5 >> 2) & 1) as u16)
            << 3) | ((((b5 >> 5) & 1) as u16) << 2) | ((((b5 >> 3) & 1) as u16) << 1) | (((b5 >> 1)
            & 1) as u16) == (cut(word(b6, b7, b8, b9), 31u32, 0x1u32) * 1024 + cut(word(b6, b7, b8, b9), 29u32, 0x1u32) * 512 + cut(word(b6, b7, b8, b9), 30u32, 0x1u32) * 256 + cut(word(b6, b7, b8, b9), 28u32, 0x1u32) * 128 + cut(word(b5, b6, b7, b8), 31u32, 0x1u32) * 64 + cut(word(b5, b6, b7, b8), 30u32, 0x1u32) * 32 + cut(word(b5, b6, b7, b8), 28u32, 0x1u32) * 16 + cut(word(b5, b6, b7, b8), 26u32, 0x1u32) * 8 + cut(word(b5, b6, b7, b8), 29u32, 0x1u32) * 4 + cut(word(b5, b6, b7, b8), 27u32, 0x1u32) * 2 + cut(word(b5, b6, b7, b8), 25u32, 0x1u32)) as u16,
{
}

/// An altitude field that counts 25-foot steps stands for an altitude
/// between -1000 and 50175 feet, whatever else the frame holds.
pub proof fn lemma_q_bit_altitude_range(frame: Seq<u8>)
    ensures
        bit(frame, 47) == 1 ==> -1000 <= spec_decode_ac12(frame) <= 50175,
        bit(frame, 25) == 0 && bit(frame, 27) == 1 ==> -1000 <= spec_decode_ac13(frame).0 <= 50175,
{
    lemma2_to64();
    lemma_ac12_bits(
        byte_at(frame, 5),
        byte_at(frame, 6),
        byte_at(frame, 7),
        byte_at(frame, 8),
        byte_at(frame, 9),
    );
    lemma_ac13_bits(
        byte_at(frame, 2),
        byte_at(frame, 3),
        byte_at(frame, 4),
        byte_at(frame, 5),
        byte_at(frame, 6),
    );
}

/// Decodes the 12-bit altitude field of an airborne position and records
/// the unit, which is always feet.
pub fn decode_ac12_field(msg: &[u8], unit: &mut AltitudeUnit) -> (altitude: i32)
    requires
        msg@.len() >= 7,
    ensures
        altitude as int == spec_decode_ac12(msg@),
        *final(unit) == AltitudeUnit::Feet,
        bit(msg@, 47) == 1 ==> -1000 <= altitude <= 50175,
{
    let b5: u8 = msg[5];
    let b6: u8 = msg[6];
    proof {
        lemma2_to64();
        let f = msg@;
        lemma_ac12_bits(b5, b6, byte_at(f, 7), byte_at(f, 8), byte_at(f, 9));
    }
    *unit = AltitudeUnit::Feet;
    if (b5 & 0x01) != 0 {
        let n: u32 = (((b5 >> 1) as u32) << 4) | (((b6 & 0xF0) >> 4) as u32);
        altitude_from_25ft_count(n as u16)
    } else {
        let code: u16 = ((((b6 >> 7) & 1) as u16) << 10) | ((((b6 >> 5) & 1) as u16) << 9) | ((((b6
            >> 6) & 1) as u16) << 8) | ((((b6 >> 4) & 1) as u16) << 7) | ((((b5 >> 7) & 1) as u16)
            << 6) | ((((b5 >> 6) & 1) as u16) << 5) | ((((b5 >> 4) & 1) as u16) << 4) | ((((b5
            >> 2) & 1) as u16) << 3) | ((((b5 >> 5) & 1) as u16) << 2) | ((((b5 >> 3) & 1) as u16)
            << 1) | (((b5 >> 1) & 1) as u16);
        match decode_gillham_altitude(code) {
            Some(altitude) => altitude,
            None => 0,
        }
    }
}

proof fn lemma_gillham_code_round_trip(band: u32, step: u32)
    by (bit_vector)
    requires
        band < 64,
        band & 8 == 0,
        step < 8,
    ensures
        ({
            let code = ((((band >> 4) & 3) << 9) | ((band & 7) << 6) | ((step & 3) << 4) | ((step
                >> 2) & 7)) as u16;
            &&& ((((code >> 9) & 3) << 4) | ((code >> 6) & 7)) as u32 == band
            &&& (((code & 7) << 2) | ((code >> 4) & 3)) as u32 == step
            &&& code & 8 == 0
            &&& (code == 0) == (band == 0 && step == 0)
        }),
{
}

proof fn lemma_small_gray(binary: u32)
    by (bit_vector)
    requires
        binary < 5,
    ensures
        spec_binary_to_gray(binary) < 8,
        (binary == 0) == (spec_binary_to_gray(binary) == 0),
{
}

proof fn lemma_gray_of_band(binary: u32)
    by (bit_vector)
    requires
        binary < 64,
    ensures
        spec_binary_to_gray(binary) < 64,
        (binary == 0) == (spec_binary_to_gray(binary) == 0),
{
}

/// Encoding an altitude that has a Gillham code and decoding the code gives
/// the altitude back.
pub proof fn lemma_gillham_round_trip(altitude: int)
    requires
        gillham_representable(altitude),
    ensures
        spec_decode_gillham(spec_encode_gillham(altitude)) == Some(altitude),
{
    let band = ((altitude + 1300) / 500) as u32;
    let step = (((altitude + 1300) % 500) / 100) as u32;
    let band_gray = spec_binary_to_gray(band);
    let step_gray = spec_binary_to_gray(step);
    lemma_gray_of_band(band);
    lemma_small_gray(step);
    lemma_gillham_code_round_trip(band_gray, step_gray);
    lemma_gray(band);
    lemma_gray(step);
}

/// Encodes an altitude as a Gillham code, where one exists.
pub fn encode_gillham_altitude(altitude: i32) -> (code: Option<u16>)
    ensures
        match code {
            Some(c) => gillham_representable(altitude as int) && c == spec_encode_gillham(
                altitude as int,
            ),
            None => !gillham_representable(altitude as int),
        },
{
    if altitude < GILLHAM_MIN_ALTITUDE || altitude > GILLHAM_MAX_ALTITUDE || altitude % 100 != 0 {
        return None;
    }
    let shifted: u32 = (altitude + 1300) as u32;
    let band: u32 = shifted / 500;
    let step: u32 = (shifted % 500) / 100;
    if band >= 64 {
        return None;
    }
    let band_gray: u32 = band ^ (band >> 1);
    let step_gray: u32 = step ^ (step >> 1);
    if band_gray & 8 != 0 {
        return None;
    }
    Some(
        ((((band_gray >> 4) & 3) << 9) | ((band_gray & 7) << 6) | ((step_gray & 3) << 4) | ((
        step_gray >> 2) & 7)) as u16,
    )
}

} // verus!
