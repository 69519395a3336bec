//! The Mode S frame parser.
//!
//! A frame is 56 or 112 bits long; its first five bits, the downlink format,
//! say which. The parser checks or recovers the sender's address, repairs
//! damaged frames where the format allows it, and extracts the fields that
//! the format defines.

pub use crate::altitude::AltitudeUnit;
use crate::altitude::{decode_ac12_field, decode_ac13_field, spec_decode_ac12, spec_decode_ac13};
pub use crate::bds::BdsData;
use crate::bds::{decode_mb_field, probe_view, spec_decode_mb, BdsView};
use crate::bits::{bit, byte_at, cut, field, word};
use crate::callsign::{decode_callsign, spec_callsign};
use crate::crc::{
    be24, checksum, crc_field, crc_ok, double_fix, extract_crc, first_double_fix, first_single_fix,
    fix_single_bit_errors, fix_two_bit_errors, flip_bit, lemma_be24, lemma_xor, modes_checksum,
    no_double_fix, no_single_fix, pair_before, residual, valid_bits,
};
use crate::math::{integer_sqrt, isqrt};
use vstd::arithmetic::power2::lemma2_to64;
use vstd::prelude::*;
use vstd::string::StringSliceAdditionalSpecFns;

verus! {

/// Length of a long frame, in bits.
pub const MODES_LONG_MSG_BITS: usize = 112;

/// Length of a short frame, in bits.
pub const MODES_SHORT_MSG_BITS: usize = 56;

/// Length of a long frame, in bytes.
pub const MODES_LONG_MSG_BYTES: usize = 14;

/// Length of a short frame, in bytes.
pub const MODES_SHORT_MSG_BYTES: usize = 7;

/// The upper-case hexadecimal digits.
pub const HEX_UPPER: [char; 16] = [
    '0', '1', '2', '3', '4', '5', '6', '7', '8', '9', 'A', 'B', 'C', 'D', 'E', 'F',
];

/// A decoded Mode S frame.
#[derive(Debug, Clone)]
pub struct ModesMessage {
    /// The frame, after any repair; a short frame fills the first 7 bytes.
    pub msg: [u8; 14],
    /// Length of the frame in bits, 56 or 112.
    pub msg_bits: usize,
    /// Downlink format of the frame as it was received.
    pub msg_type: u8,
    /// The checksum field of the frame.
    pub crc: u32,
    /// Whether the frame passed its check: a matching checksum, or, for the
    /// formats that overlay the address on the checksum, a known address.
    pub crc_ok: bool,
    /// Position of the bit that was repaired, if one was.
    pub error_bit: Option<usize>,
    /// Position of the second bit that was repaired, if two were.
    pub error_bit2: Option<usize>,
    /// The sender's 24-bit address, most significant byte first.
    pub aa: [u8; 3],
    /// Transponder capability.
    pub ca: u8,
    /// Extended squitter message type.
    pub me_type: u8,
    /// Extended squitter message subtype.
    pub me_sub: u8,
    /// Flight status.
    pub fs: u8,
    /// Downlink request.
    pub dr: u8,
    /// Utility message.
    pub um: u8,
    /// Squawk: four octal digits written as a decimal number.
    pub identity: u16,
    /// Altitude, in `unit`.
    pub altitude: i32,
    /// Unit of the altitude.
    pub unit: AltitudeUnit,
    /// Callsign, without the spaces around it.
    pub flight: String,
    /// Aircraft category within the identification message type.
    pub aircraft_type: u8,
    /// Position format: false for an even fragment, true for an odd one.
    pub fflag: bool,
    /// Whether the position's time is synchronised to UTC.
    pub tflag: bool,
    /// Raw 17-bit latitude of a position fragment.
    pub raw_latitude: u32,
    /// Raw 17-bit longitude of a position fragment.
    pub raw_longitude: u32,
    /// Whether the heading of a heading message is valid.
    pub heading_is_valid: bool,
    /// Heading in sixteenths of a degree. The parser fills it from heading
    /// messages. A velocity message has no heading field: the direction of
    /// its velocity follows from the two components by trigonometry, which a
    /// caller may do and store here before the frame goes to the tracker.
    pub heading: u16,
    /// East-west direction of the velocity: 0 east, 1 west.
    pub ew_dir: u8,
    /// East-west component of the velocity, in knots.
    pub ew_velocity: u16,
    /// North-south direction of the velocity: 0 north, 1 south.
    pub ns_dir: u8,
    /// North-south component of the velocity, in knots.
    pub ns_velocity: u16,
    /// Source of the vertical rate.
    pub vert_rate_source: u8,
    /// Sign of the vertical rate: 0 up, 1 down.
    pub vert_rate_sign: u8,
    /// Vertical rate, raw.
    pub vert_rate: u16,
    /// Ground speed in knots: the length of the velocity, rounded down.
    pub velocity: u16,
    /// Whether the frame was found on the second, shifted attempt.
    pub phase_corrected: bool,
    /// Mean of the preamble peaks.
    pub signal_level: u16,
    /// What the MB field of a Comm-B reply holds.
    pub bds_data: Option<BdsData>,
}

/// Length in bits of a frame of downlink format `df`.
pub open spec fn spec_message_bits(df: int) -> int {
    if df == 16 || df == 17 || df == 19 || df == 20 || df == 21 {
        112
    } else {
        56
    }
}

/// The formats that carry the sender's address in bytes 1 to 3 and a plain
/// checksum. The others overlay the address on the checksum.
pub open spec fn address_in_message(df: int) -> bool {
    df == 11 || df == 17 || df == 18
}

/// The first 14 bytes of the input, filled up with zeros.
pub open spec fn padded_frame(raw: Seq<u8>) -> Seq<u8> {
    Seq::new(14, |i: int| byte_at(raw, i))
}

/// The squawk of an identity reply. Its octal digits A, B, C, D lie
/// interleaved in bits 19 to 31: C1 A1 C2 A2 C4 A4 - B1 D1 B2 D2 B4 D4.
pub open spec fn spec_squawk(frame: Seq<u8>) -> int {
    (4 * bit(frame, 24) + 2 * bit(frame, 22) + bit(frame, 20)) * 1000 + (4 * bit(frame, 30) + 2
        * bit(frame, 28) + bit(frame, 26)) * 100 + (4 * bit(frame, 23) + 2 * bit(frame, 21) + bit(
        frame,
        19,
    )) * 10 + (4 * bit(frame, 31) + 2 * bit(frame, 29) + bit(frame, 27))
}

/// The value of one hexadecimal digit character, upper or lower case.
pub open spec fn spec_hex_digit_val(c: u8) -> Option<u8> {
    if 0x30 <= c <= 0x39 {
        Some((c - 0x30) as u8)
    } else if 0x61 <= c <= 0x66 {
        Some((c - 0x61 + 10) as u8)
    } else if 0x41 <= c <= 0x46 {
        Some((c - 0x41 + 10) as u8)
    } else {
        None
    }
}

/// The bytes that a frame in text form stands for: `*`, an even number of
/// hexadecimal digits, at least 2 and at most 28, and `;`. Nothing else is
/// a frame.
pub open spec fn spec_parse_hex(text: Seq<u8>) -> Option<Seq<u8>> {
    let body = text.subrange(1, text.len() - 1);
    if text.len() < 4 || text[0] != 0x2a || text.last() != 0x3b {
        None
    } else if body.len() > 28 || body.len() % 2 != 0 {
        None
    } else if exists|i: int| 0 <= i < body.len() && spec_hex_digit_val(#[trigger] body[i]) is None {
        None
    } else {
        Some(
            Seq::new(
                body.len() / 2,
                |i: int|
                    (spec_hex_digit_val(body[2 * i])->0 * 16 + spec_hex_digit_val(
                        body[2 * i + 1],
                    )->0) as u8,
            ),
        )
    }
}

/// The text form of some bytes: two upper-case hexadecimal digits each.
pub open spec fn spec_hex_upper(bytes: Seq<u8>) -> Seq<char> {
    Seq::new(
        2 * bytes.len(),
        |i: int|
            if i % 2 == 0 {
                HEX_UPPER@[bytes[i / 2] as int / 16]
            } else {
                HEX_UPPER@[bytes[i / 2] as int % 16]
            },
    )
}

/// The text form of a frame: `*`, its bytes in hexadecimal, `;`.
pub open spec fn spec_raw_string(bytes: Seq<u8>) -> Seq<char> {
    seq!['*'] + spec_hex_upper(bytes) + seq![';']
}

impl ModesMessage {
    /// The sender's address as a number.
    pub open spec fn spec_icao_address(&self) -> u32 {
        be24(self.aa@[0], self.aa@[1], self.aa@[2])
    }

    /// The frame in the record is the received frame `f0` after the check
    /// and the repairs that the format and the policy allow, and `passed`
    /// says whether its checksum matches in the end. A frame whose checksum
    /// matches is kept. Otherwise, where single-bit repair is allowed, the
    /// first bit whose inversion makes the checksum match is inverted;
    /// failing that, where two-bit repair is allowed, the first such pair
    /// of bits. The record names the repaired bits.
    pub open spec fn checked_against(
        &self,
        f0: Seq<u8>,
        single: bool,
        double: bool,
        passed: bool,
    ) -> bool {
        let bits = self.msg_bits as int;
        match (self.error_bit, self.error_bit2) {
            (None, None) => {
                &&& self.msg@ == f0
                &&& passed == crc_ok(f0, bits)
                &&& !crc_ok(f0, bits) && single ==> no_single_fix(f0, bits)
                &&& !crc_ok(f0, bits) && single && double ==> no_double_fix(f0, bits)
            },
            (Some(j), None) => {
                &&& !crc_ok(f0, bits)
                &&& single
                &&& first_single_fix(f0, bits, j as int)
                &&& self.msg@ == flip_bit(f0, j as int)
                &&& passed
            },
            (Some(j), Some(i)) => {
                &&& !crc_ok(f0, bits)
                &&& single
                &&& double
                &&& no_single_fix(f0, bits)
                &&& first_double_fix(f0, bits, j as int, i as int)
                &&& self.msg@ == flip_bit(flip_bit(f0, j as int), i as int)
                &&& passed
            },
            (None, Some(_)) => false,
        }
    }

    /// Length, check, repair and address of the record, for the input `raw`.
    /// The downlink format and the length are those of the frame as
    /// received. A format with the address in the message is checked and,
    /// for formats 11 and 17 with `fix_errors`, repaired (two bits only for
    /// format 17 with `aggressive`); its address is bytes 1 to 3 of the
    /// frame in the record, and `passed` says whether its checksum matches
    /// in the end. Any other format is taken as it is, its address is what
    /// is left of the checksum field when the checksum is taken out, and it
    /// has not passed.
    pub open spec fn envelope_of(
        &self,
        raw: Seq<u8>,
        fix_errors: bool,
        aggressive: bool,
        passed: bool,
    ) -> bool {
        let f0 = padded_frame(raw);
        let df = field(f0, 0, 5) as int;
        &&& self.msg_type == df
        &&& self.msg_bits == spec_message_bits(df)
        &&& self.crc == crc_field(self.msg@, self.msg_bits as int)
        &&& if address_in_message(df) {
            &&& self.checked_against(
                f0,
                fix_errors && (df == 11 || df == 17),
                aggressive && df == 17,
                passed,
            )
            &&& self.aa@ == self.msg@.subrange(1, 4)
        } else {
            &&& self.msg@ == f0
            &&& !passed
            &&& self.error_bit is None
            &&& self.error_bit2 is None
            &&& self.spec_icao_address() == residual(f0, self.msg_bits as int)
        }
    }

    /// The fields that every format has, read from the frame in the record.
    pub open spec fn header_of_frame(&self) -> bool {
        let f = self.msg@;
        &&& self.ca == field(f, 5, 3)
        &&& self.fs == field(f, 5, 3)
        &&& self.dr == field(f, 8, 5)
        &&& self.um == field(f, 13, 6)
        &&& self.me_type == field(f, 32, 5)
        &&& self.me_sub == field(f, 37, 3)
    }

    /// The squawk, for the identity replies (formats 5 and 21); else 0.
    pub open spec fn identity_of_frame(&self) -> bool {
        self.identity as int == if self.msg_type == 5 || self.msg_type == 21 {
            spec_squawk(self.msg@)
        } else {
            0
        }
    }

    /// The altitude and its unit: the 13-bit field for the altitude replies
    /// (formats 0, 4, 16, 20), the 12-bit field for an airborne position
    /// (format 17, types 9 to 18); else 0 feet.
    pub open spec fn altitude_of_frame(&self) -> bool {
        let f = self.msg@;
        let df = self.msg_type;
        (self.altitude as int, self.unit) == if df == 0 || df == 4 || df == 16 || df == 20 {
            spec_decode_ac13(f)
        } else if df == 17 && 9 <= self.me_type <= 18 {
            (spec_decode_ac12(f), AltitudeUnit::Feet)
        } else {
            (0int, AltitudeUnit::Feet)
        }
    }

    /// Identification (format 17, types 1 to 4): the category, and the
    /// callsign from byte 5 on. Else category 0 and no callsign.
    pub open spec fn identification_of_frame(&self) -> bool {
        if self.msg_type == 17 && 1 <= self.me_type <= 4 {
            &&& self.aircraft_type == self.me_type - 1
            &&& self.flight@ == spec_callsign(self.msg@, 5)
        } else {
            &&& self.aircraft_type == 0
            &&& self.flight@ == Seq::<char>::empty()
        }
    }

    /// Airborne position (format 17, types 9 to 18): the time flag in bit
    /// 52, the format flag in bit 53, the raw latitude in the 17 bits from
    /// bit 54 and the raw longitude in the 17 bits from bit 71. Else all
    /// zero.
    pub open spec fn position_of_frame(&self) -> bool {
        let f = self.msg@;
        if self.msg_type == 17 && 9 <= self.me_type <= 18 {
            &&& self.tflag == (bit(f, 52) == 1)
            &&& self.fflag == (bit(f, 53) == 1)
            &&& self.raw_latitude == field(f, 54, 17)
            &&& self.raw_longitude == field(f, 71, 17)
        } else {
            &&& !self.tflag
            &&& !self.fflag
            &&& self.raw_latitude == 0
            &&& self.raw_longitude == 0
        }
    }

    /// Airborne velocity (format 17, type 19, subtypes 1 and 2): direction
    /// bit and ten bits of speed for each axis from bit 45 and from bit 56,
    /// source, sign and nine bits of vertical rate from bit 67, and the
    /// ground speed, the square root of the sum of the squared components,
    /// rounded down. Else all zero.
    pub open spec fn velocity_of_frame(&self) -> bool {
        let f = self.msg@;
        if self.msg_type == 17 && self.me_type == 19 && (self.me_sub == 1 || self.me_sub == 2) {
            &&& self.ew_dir == bit(f, 45)
            &&& self.ew_velocity == field(f, 46, 10)
            &&& self.ns_dir == bit(f, 56)
            &&& self.ns_velocity == field(f, 57, 10)
            &&& self.vert_rate_source == bit(f, 67)
            &&& self.vert_rate_sign == bit(f, 68)
            &&& self.vert_rate == field(f, 69, 9)
            &&& self.velocity as int == isqrt(
                self.ew_velocity * self.ew_velocity + self.ns_velocity * self.ns_velocity,
            )
        } else {
            &&& self.ew_dir == 0
            &&& self.ew_velocity == 0
            &&& self.ns_dir == 0
            &&& self.ns_velocity == 0
            &&& self.vert_rate_source == 0
            &&& self.vert_rate_sign == 0
            &&& self.vert_rate == 0
            &&& self.velocity == 0
        }
    }

    /// Airborne heading (format 17, type 19, subtypes 3 and 4): validity in
    /// bit 45 and seven bits of heading from bit 46 in steps of 360/128
    /// degree, which is 45 sixteenths of a degree. Else invalid and zero.
    pub open spec fn heading_of_frame(&self) -> bool {
        let f = self.msg@;
        if self.msg_type == 17 && self.me_type == 19 && (self.me_sub == 3 || self.me_sub == 4) {
            &&& self.heading_is_valid == (bit(f, 45) == 1)
            &&& self.heading == field(f, 46, 7) * 45
        } else {
            &&& !self.heading_is_valid
            &&& self.heading == 0
        }
    }

    /// The MB field, for the Comm-B replies (formats 20 and 21); else none.
    pub open spec fn comm_b_of_frame(&self) -> bool {
        probe_view(self.bds_data) == if self.msg_type == 20 || self.msg_type == 21 {
            spec_decode_mb(self.msg@)
        } else {
            None::<BdsView>
        }
    }

    /// The record holds the frame of the input `raw` and its fields, under
    /// the repair policy given; `passed` says whether the frame passed its
    /// checksum.
    #[verifier::opaque]
    pub open spec fn records(
        &self,
        raw: Seq<u8>,
        fix_errors: bool,
        aggressive: bool,
        passed: bool,
    ) -> bool {
        &&& self.envelope_of(raw, fix_errors, aggressive, passed)
        &&& self.header_of_frame()
        &&& self.identity_of_frame()
        &&& self.altitude_of_frame()
        &&& self.identification_of_frame()
        &&& self.position_of_frame()
        &&& self.velocity_of_frame()
        &&& self.heading_of_frame()
        &&& self.comm_b_of_frame()
    }

    /// The record is the decoding of the input `raw` under the repair
    /// policy given: it holds the frame and its fields, says whether the
    /// frame passed its checksum, and carries no signal data.
    pub open spec fn is_decoding_of(&self, raw: Seq<u8>, fix_errors: bool, aggressive: bool) -> bool {
        &&& self.records(raw, fix_errors, aggressive, self.crc_ok)
        &&& !self.phase_corrected
        &&& self.signal_level == 0
    }

    /// No field of the frame has been read yet: every field but the frame,
    /// its length, format, check and address is zero, false or empty.
    pub open spec fn fields_are_blank(&self) -> bool {
        &&& self.ca == 0
        &&& self.me_type == 0
        &&& self.me_sub == 0
        &&& self.fs == 0
        &&& self.dr == 0
        &&& self.um == 0
        &&& self.identity == 0
        &&& self.altitude == 0
        &&& self.unit == AltitudeUnit::Feet
        &&& self.flight@ == Seq::<char>::empty()
        &&& self.aircraft_type == 0
        &&& !self.fflag
        &&& !self.tflag
        &&& self.raw_latitude == 0
        &&& self.raw_longitude == 0
        &&& !self.heading_is_valid
        &&& self.heading == 0
        &&& self.ew_dir == 0
        &&& self.ew_velocity == 0
        &&& self.ns_dir == 0
        &&& self.ns_velocity == 0
        &&& self.vert_rate_source == 0
        &&& self.vert_rate_sign == 0
        &&& self.vert_rate == 0
        &&& self.velocity == 0
        &&& !self.phase_corrected
        &&& self.signal_level == 0
        &&& self.bds_data is None
    }

    /// The record of nothing: every field zero, false or empty.
    pub open spec fn is_blank(&self) -> bool {
        &&& self.msg@ == Seq::new(14, |i: int| 0u8)
        &&& self.msg_bits == 0
        &&& self.msg_type == 0
        &&& self.crc == 0
        &&& !self.crc_ok
        &&& self.error_bit is None
        &&& self.error_bit2 is None
        &&& self.aa@ == Seq::new(3, |i: int| 0u8)
        &&& self.fields_are_blank()
    }

    /// The flags of a BaseStation line, each 0 or -1 for set: alert (flight
    /// status 2, 3 or 4), emergency (squawk 7500, 7600 or 7700), special
    /// position identification (flight status 4 or 5), on the ground (flight
    /// status 1 or 3).
    pub open spec fn spec_flight_status_flags(&self) -> (int, int, int, int) {
        (
            if self.fs == 2 || self.fs == 3 || self.fs == 4 {
                -1
            } else {
                0
            },
            if spec_is_emergency_squawk(self.identity) {
                -1
            } else {
                0
            },
            if self.fs == 4 || self.fs == 5 {
                -1
            } else {
                0
            },
            if self.fs == 1 || self.fs == 3 {
                -1
            } else {
                0
            },
        )
    }

    /// The vertical rate of a velocity frame in feet per minute: 64 feet per
    /// minute for every step of the raw rate above 1, downwards where the
    /// sign is set.
    pub open spec fn spec_vertical_rate(&self) -> int {
        if self.vert_rate_sign == 0 {
            (self.vert_rate - 1) * 64
        } else {
            -(self.vert_rate - 1) * 64
        }
    }

    /// The alert, emergency, special position identification and ground
    /// flags of the frame, in this order, each 0 or -1.
    pub fn decode_flight_status_flags(&self) -> (flags: (i32, i32, i32, i32))
        ensures
            (flags.0 as int, flags.1 as int, flags.2 as int, flags.3 as int)
                == self.spec_flight_status_flags(),
    {
        let emergency: i32 = if is_emergency_squawk(self.identity) {
            -1
        } else {
            0
        };
        let ground: i32 = if self.fs == 1 || self.fs == 3 {
            -1
        } else {
            0
        };
        let alert: i32 = if self.fs == 2 || self.fs == 3 || self.fs == 4 {
            -1
        } else {
            0
        };
        let spi: i32 = if self.fs == 4 || self.fs == 5 {
            -1
        } else {
            0
        };
        (alert, emergency, spi, ground)
    }

    /// The vertical rate of a velocity frame in feet per minute.
    pub fn vertical_rate(&self) -> (rate: i32)
        ensures
            rate as int == self.spec_vertical_rate(),
    {
        let steps: i32 = self.vert_rate as i32 - 1;
        if self.vert_rate_sign == 0 {
            steps * 64
        } else {
            -steps * 64
        }
    }

    /// The sender's address as a number.
    pub fn icao_address(&self) -> (icao: u32)
        ensures
            icao == self.spec_icao_address(),
            icao < 0x1000000,
    {
        proof {
            lemma_be24(self.aa@[0], self.aa@[1], self.aa@[2]);
        }
        ((self.aa[0] as u32) << 16) | ((self.aa[1] as u32) << 8) | (self.aa[2] as u32)
    }

    /// The frame in text form, as the raw servers exchange it.
    pub fn to_raw_string(&self) -> (text: String)
        requires
            self.msg_bits / 8 <= 14,
        ensures
            text@ == spec_raw_string(self.msg@.subrange(0, (self.msg_bits / 8) as int)),
    {
        let bytes: usize = self.msg_bits / 8;
        let ghost frame = self.msg@.subrange(0, bytes as int);
        let mut text = String::new();
        text.push('*');
        let mut i: usize = 0;
        while i < bytes
            invariant
                bytes <= 14,
                i <= bytes,
                frame == self.msg@.subrange(0, bytes as int),
                text@ == seq!['*'] + spec_hex_upper(frame).subrange(0, 2 * i),
            decreases bytes - i,
        {
            let b: u8 = self.msg[i];
            proof {
                lemma_nibbles(b);
                let digits = spec_hex_upper(frame);
                assert(digits.subrange(0, 2 * i + 2) =~= digits.subrange(0, 2 * i).push(
                    digits[2 * i],
                ).push(digits[2 * i + 1]));
                assert(digits[2 * i] == HEX_UPPER@[b as int / 16]);
                assert(digits[2 * i + 1] == HEX_UPPER@[b as int % 16]);
                assert((seq!['*'] + digits.subrange(0, 2 * i)).push(digits[2 * i]).push(
                    digits[2 * i + 1],
                ) =~= seq!['*'] + digits.subrange(0, 2 * i + 2));
            }
            text.push(HEX_UPPER[(b >> 4) as usize]);
            text.push(HEX_UPPER[(b & 0x0f) as usize]);
            i += 1;
        }
        text.push(';');
        proof {
            let digits = spec_hex_upper(frame);
            assert(digits.subrange(0, 2 * bytes) =~= digits);
        }
        text
    }
}

impl Default for ModesMessage {
    /// The record of nothing.
    fn default() -> (mm: Self)
        ensures
            mm.is_blank(),
    {
        let mm = ModesMessage {
            msg: [0u8; 14],
            msg_bits: 0,
            msg_type: 0,
            crc: 0,
            crc_ok: false,
            error_bit: None,
            error_bit2: None,
            aa: [0u8; 3],
            ca: 0,
            me_type: 0,
            me_sub: 0,
            fs: 0,
            dr: 0,
            um: 0,
            identity: 0,
            altitude: 0,
            unit: AltitudeUnit::Feet,
            flight: String::new(),
            aircraft_type: 0,
            fflag: false,
            tflag: false,
            raw_latitude: 0,
            raw_longitude: 0,
            heading_is_valid: false,
            heading: 0,
            ew_dir: 0,
            ew_velocity: 0,
            ns_dir: 0,
            ns_velocity: 0,
            vert_rate_source: 0,
            vert_rate_sign: 0,
            vert_rate: 0,
            velocity: 0,
            phase_corrected: false,
            signal_level: 0,
            bds_data: None,
        };
        assert(mm.msg@ =~= Seq::new(14, |i: int| 0u8));
        assert(mm.aa@ =~= Seq::new(3, |i: int| 0u8));
        mm
    }
}

proof fn lemma_unpack_bits(v: u32)
    by (bit_vector)
    requires
        v < 0x1000000,
    ensures
        (((v >> 16) & 0xFF) as u8) as u32 * 65536 + (((v >> 8) & 0xFF) as u8) as u32 * 256 + ((v
            & 0xFF) as u8) as u32 == v,
{
}

proof fn lemma_nibbles(b: u8)
    by (bit_vector)
    ensures
        b >> 4 == b / 16,
        b & 0x0f == b % 16,
        b >> 4 < 16,
        b & 0x0f < 16,
        forall|h: u8, l: u8| h < 16 && l < 16 ==> #[trigger] ((h << 4) | l) == h * 16 + l,
{
}

/// The header fields of a frame, as shifts and masks of its bytes.
pub proof fn lemma_header_bits(b0: u8, b1: u8, b2: u8, b3: u8, b4: u8, b5: u8, b6: u8, b7: u8)
    by (bit_vector)
    ensures
        (b0 >> 3) as u32 == cut(word(b0, b1, b2, b3), 27u32, 0x1fu32),
        (b0 & 0x07) as u32 == cut(word(b0, b1, b2, b3), 24u32, 0x7u32),
        ((b1 >> 3) & 0x1F) as u32 == cut(word(b1, b2, b3, b4), 27u32, 0x1fu32),
        (((b1 & 0x07) << 3) | (b2 >> 5)) as u32 == cut(word(b1, b2, b3, b4), 21u32, 0x3fu32),
        (b4 >> 3) as u32 == cut(word(b4, b5, b6, b7), 27u32, 0x1fu32),
        (b4 & 0x07) as u32 == cut(word(b4, b5, b6, b7), 24u32, 0x7u32),
        b0 >> 3 < 32,
{
}

proof fn lemma_squawk_bits(b2: u8, b3: u8, b4: u8, b5: u8, b6: u8)
    by (bit_vector)
    ensures
        (((b3 & 0x80) >> 5) | (b2 & 0x02) | ((b2 & 0x08) >> 3)) as u32 == 4 * cut(word(b3, b4, b5, b6), 31u32, 0x1u32) + 2 * cut(word(b2, b3, b4, b5), 25u32, 0x1u32)
            + cut(word(b2, b3, b4, b5), 27u32, 0x1u32),
        (((b3 & 0x02) << 1) | ((b3 & 0x08) >> 2) | ((b3 & 0x20) >> 5)) as u32 == 4 * cut(word(b3, b4, b5, b6), 25u32, 0x1u32) + 2
            * cut(word(b3, b4, b5, b6), 27u32, 0x1u32) + cut(word(b3, b4, b5, b6), 29u32, 0x1u32),
        (((b2 & 0x01) << 2) | ((b2 & 0x04) >> 1) | ((b2 & 0x10) >> 4)) as u32 == 4 * cut(word(b2, b3, b4, b5), 24u32, 0x1u32) + 2
            * cut(word(b2, b3, b4, b5), 26u32, 0x1u32) + cut(word(b2, b3, b4, b5), 28u32, 0x1u32),
        (((b3 & 0x01) << 2) | ((b3 & 0x04) >> 1) | ((b3 & 0x10) >> 4)) as u32 == 4 * cut(word(b3, b4, b5, b6), 24u32, 0x1u32) + 2
            * cut(word(b3, b4, b5, b6), 26u32, 0x1u32) + cut(word(b3, b4, b5, b6), 28u32, 0x1u32),
        4 * cut(word(b3, b4, b5, b6), 31u32, 0x1u32) + 2 * cut(word(b2, b3, b4, b5), 25u32, 0x1u32) + cut(word(b2, b3, b4, b5), 27u32, 0x1u32) < 8,
        4 * cut(word(b3, b4, b5, b6), 25u32, 0x1u32) + 2 * cut(word(b3, b4, b5, b6), 27u32, 0x1u32) + cut(word(b3, b4, b5, b6), 29u32, 0x1u32) < 8,
        4 * cut(word(b2, b3, b4, b5), 24u32, 0x1u32) + 2 * cut(word(b2, b3, b4, b5), 26u32, 0x1u32) + cut(word(b2, b3, b4, b5), 28u32, 0x1u32) < 8,
        4 * cut(word(b3, b4, b5, b6), 24u32, 0x1u32) + 2 * cut(word(b3, b4, b5, b6), 26u32, 0x1u32) + cut(word(b3, b4, b5, b6), 28u32, 0x1u32) < 8,
{
}

proof fn lemma_squitter_bits(b5: u8, b6: u8, b7: u8, b8: u8, b9: u8, b10: u8, b11: u8)
    by (bit_vector)
    ensures
        ((b6 & 0x08) != 0) == (cut(word(b6, b7, b8, b9), 27u32, 0x1u32) == 1),
        ((b6 & 0x04) != 0) == (cut(word(b6, b7, b8, b9), 26u32, 0x1u32) == 1),
        (((b6 & 0x03) as u32) << 15) | ((b7 as u32) << 7) | ((b8 >> 1) as u32) == cut(word(b6, b7, b8, b9), 9u32, 0x1ffffu32),
        (((b8 & 0x01) as u32) << 16) | ((b9 as u32) << 8) | (b10 as u32) == cut(word(b8, b9, b10, b11), 8u32, 0x1ffffu32),
        ((b5 & 0x04) >> 2) as u32 == cut(word(b5, b6, b7, b8), 26u32, 0x1u32),
        ((b5 & 0x04) != 0) == (cut(word(b5, b6, b7, b8), 26u32, 0x1u32) == 1),
        ((((b5 & 0x03) as u16) << 8) | (b6 as u16)) as u32 == cut(word(b5, b6, b7, b8), 16u32, 0x3ffu32),
        ((b7 & 0x80) >> 7) as u32 == cut(word(b7, b8, b9, b10), 31u32, 0x1u32),
        ((((b7 & 0x7F) as u16) << 3) | (((b8 & 0xE0) >> 5) as u16)) as u32 == cut(word(b7, b8, b9, b10), 21u32, 0x3ffu32),
        ((b8 & 0x10) >> 4) as u32 == cut(word(b8, b9, b10, b11), 28u32, 0x1u32),
        ((b8 & 0x08) >> 3) as u32 == cut(word(b8, b9, b10, b11), 27u32, 0x1u32),
        ((((b8 & 0x07) as u16) << 6) | (((b9 & 0xFC) >> 2) as u16)) as u32 == cut(word(b8, b9, b10, b11), 18u32, 0x1ffu32),
        ((((b5 & 0x03) as u16) << 5) | ((b6 >> 3) as u16)) as u32 == cut(word(b5, b6, b7, b8), 19u32, 0x7fu32),
        cut(word(b5, b6, b7, b8), 16u32, 0x3ffu32) < 1024 && cut(word(b7, b8, b9, b10), 21u32, 0x3ffu32) < 1024 && cut(word(b5, b6, b7, b8), 19u32, 0x7fu32) < 128,
{
}

/// Some single inversion makes the frame valid.
pub open spec fn has_single_fix(f0: Seq<u8>, bits: int) -> bool {
    exists|j: int| first_single_fix(f0, bits, j)
}

/// Some pair of inversions makes the frame valid.
pub open spec fn has_double_fix(f0: Seq<u8>, bits: int) -> bool {
    exists|j: int, i: int| first_double_fix(f0, bits, j, i)
}

/// Whether a frame passes its check, with the repairs allowed.
pub open spec fn spec_check_passes(f0: Seq<u8>, bits: int, single: bool, double: bool) -> bool {
    crc_ok(f0, bits) || (single && (has_single_fix(f0, bits) || (double && has_double_fix(
        f0,
        bits,
    ))))
}

/// The frame after the check, with the repairs allowed.
pub open spec fn spec_checked_frame(f0: Seq<u8>, bits: int, single: bool, double: bool) -> Seq<u8> {
    if crc_ok(f0, bits) || !single {
        f0
    } else if has_single_fix(f0, bits) {
        flip_bit(f0, choose|j: int| first_single_fix(f0, bits, j))
    } else if double && has_double_fix(f0, bits) {
        let pair = choose|pair: (int, int)| first_double_fix(f0, bits, pair.0, pair.1);
        flip_bit(flip_bit(f0, pair.0), pair.1)
    } else {
        f0
    }
}

/// Whether the frame of an input passes its checksum, under the repair
/// policy given. Only the formats with the address in the message can.
pub open spec fn spec_frame_passes(raw: Seq<u8>, fix_errors: bool, aggressive: bool) -> bool {
    let f0 = padded_frame(raw);
    let df = field(f0, 0, 5) as int;
    address_in_message(df) && spec_check_passes(
        f0,
        spec_message_bits(df),
        fix_errors && (df == 11 || df == 17),
        aggressive && df == 17,
    )
}

/// The sender's address of the frame of an input, under the repair policy
/// given: bytes 1 to 3 of the frame after the check, or, for the formats
/// that overlay the address on the checksum, what is left of the checksum
/// field when the checksum is taken out.
pub open spec fn spec_frame_address(raw: Seq<u8>, fix_errors: bool, aggressive: bool) -> u32 {
    let f0 = padded_frame(raw);
    let df = field(f0, 0, 5) as int;
    let bits = spec_message_bits(df);
    if address_in_message(df) {
        let f = spec_checked_frame(
            f0,
            bits,
            fix_errors && (df == 11 || df == 17),
            aggressive && df == 17,
        );
        be24(f[1], f[2], f[3])
    } else {
        residual(f0, bits)
    }
}

/// There is one first single repair at most.
pub proof fn lemma_first_single_fix_unique(f0: Seq<u8>, bits: int, j: int, k: int)
    requires
        first_single_fix(f0, bits, j),
        first_single_fix(f0, bits, k),
    ensures
        j == k,
{
    if j < k {
        assert(!crc_ok(flip_bit(f0, j), bits));
    } else if k < j {
        assert(!crc_ok(flip_bit(f0, k), bits));
    }
}

/// There is one first double repair at most.
pub proof fn lemma_first_double_fix_unique(f0: Seq<u8>, bits: int, j: int, i: int, k: int, l: int)
    requires
        first_double_fix(f0, bits, j, i),
        first_double_fix(f0, bits, k, l),
    ensures
        j == k && i == l,
{
    if pair_before(j, i, k, l) {
        assert(!double_fix(f0, bits, j, i));
    } else if pair_before(k, l, j, i) {
        assert(!double_fix(f0, bits, k, l));
    }
}

/// A record's frame and its check are those that the policy determines,
/// and so is its address.
pub proof fn lemma_record_is_determined(
    mm: ModesMessage,
    raw: Seq<u8>,
    fix_errors: bool,
    aggressive: bool,
    passed: bool,
)
    requires
        mm.records(raw, fix_errors, aggressive, passed),
    ensures
        passed == spec_frame_passes(raw, fix_errors, aggressive),
        mm.spec_icao_address() == spec_frame_address(raw, fix_errors, aggressive),
        mm.msg_type == field(padded_frame(raw), 0, 5),
        mm.msg_bits == spec_message_bits(mm.msg_type as int),
{
    reveal(ModesMessage::records);
    let f0 = padded_frame(raw);
    let df = field(f0, 0, 5) as int;
    let bits = spec_message_bits(df);
    let single = fix_errors && (df == 11 || df == 17);
    let double = aggressive && df == 17;
    if address_in_message(df) {
        assert(mm.aa@[0] == mm.msg@.subrange(1, 4)[0]);
        assert(mm.aa@[1] == mm.msg@.subrange(1, 4)[1]);
        assert(mm.aa@[2] == mm.msg@.subrange(1, 4)[2]);
        match (mm.error_bit, mm.error_bit2) {
            (None, None) => {
                if !crc_ok(f0, bits) && single {
                    assert(!has_single_fix(f0, bits)) by {
                        if has_single_fix(f0, bits) {
                            let j = choose|j: int| first_single_fix(f0, bits, j);
                            assert(!crc_ok(flip_bit(f0, j), bits));
                        }
                    }
                    if double {
                        assert(!has_double_fix(f0, bits)) by {
                            if has_double_fix(f0, bits) {
                                let (j, i) = choose|j: int, i: int| first_double_fix(f0, bits, j, i);
                                assert(!double_fix(f0, bits, j, i));
                            }
                        }
                    }
                }
            },
            (Some(j), None) => {
                let k = choose|k: int| first_single_fix(f0, bits, k);
                lemma_first_single_fix_unique(f0, bits, j as int, k);
            },
            (Some(j), Some(i)) => {
                assert(!has_single_fix(f0, bits)) by {
                    if has_single_fix(f0, bits) {
                        let k = choose|k: int| first_single_fix(f0, bits, k);
                        assert(!crc_ok(flip_bit(f0, k), bits));
                    }
                }
                let witness = (j as int, i as int);
                assert(first_double_fix(f0, bits, witness.0, witness.1));
                let pair = choose|pair: (int, int)| first_double_fix(f0, bits, pair.0, pair.1);
                lemma_first_double_fix_unique(f0, bits, j as int, i as int, pair.0, pair.1);
            },
            (None, Some(_)) => {},
        }
    }
}

/// Whether a record holds the frame of an input does not depend on what the
/// record says of the check and of the signal.
pub proof fn lemma_records_ignores_status(
    a: ModesMessage,
    b: ModesMessage,
    raw: Seq<u8>,
    fix_errors: bool,
    aggressive: bool,
    passed: bool,
)
    requires
        a.records(raw, fix_errors, aggressive, passed),
        b == (ModesMessage {
            crc_ok: b.crc_ok,
            phase_corrected: b.phase_corrected,
            signal_level: b.signal_level,
            ..a
        }),
    ensures
        b.records(raw, fix_errors, aggressive, passed),
{
    reveal(ModesMessage::records);
}

/// What is left of the checksum field of a record's frame when the
/// checksum is taken out: nothing, if the frame passed its checksum; the
/// address, if the format overlays the address on the checksum.
pub proof fn lemma_record_residual(
    mm: ModesMessage,
    raw: Seq<u8>,
    fix_errors: bool,
    aggressive: bool,
    passed: bool,
)
    requires
        mm.records(raw, fix_errors, aggressive, passed),
    ensures
        address_in_message(mm.msg_type as int) && passed ==> residual(
            mm.msg@,
            mm.msg_bits as int,
        ) == 0,
        !address_in_message(mm.msg_type as int) ==> residual(mm.msg@, mm.msg_bits as int)
            == mm.spec_icao_address(),
{
    reveal(ModesMessage::records);
    let bits = mm.msg_bits as int;
    lemma_xor(checksum(mm.msg@, bits), crc_field(mm.msg@, bits), 0);
}

/// Length in bits of a frame of downlink format `df`.
pub fn message_len_by_type(df: u8) -> (bits: usize)
    ensures
        bits == spec_message_bits(df as int),
        valid_bits(bits as int),
{
    if df == 16 || df == 17 || df == 19 || df == 20 || df == 21 {
        MODES_LONG_MSG_BITS
    } else {
        MODES_SHORT_MSG_BITS
    }
}

/// Copies the first 14 bytes of the input into a frame buffer and fills the
/// rest with zeros.
fn load_frame(raw_msg: &[u8]) -> (msg: [u8; 14])
    ensures
        msg@ == padded_frame(raw_msg@),
{
    let mut msg: [u8; 14] = [0u8; 14];
    let len: usize = if raw_msg.len() < MODES_LONG_MSG_BYTES {
        raw_msg.len()
    } else {
        MODES_LONG_MSG_BYTES
    };
    let mut i: usize = 0;
    while i < len
        invariant
            len <= 14,
            len <= raw_msg@.len(),
            i <= len,
            forall|k: int| 0 <= k < i ==> #[trigger] msg@[k] == raw_msg@[k],
            forall|k: int| i <= k < 14 ==> #[trigger] msg@[k] == 0,
        decreases len - i,
    {
        msg[i] = raw_msg[i];
        i += 1;
    }
    assert(msg@ =~= padded_frame(raw_msg@));
    msg
}

/// The ground speed of a velocity: the square root of the sum of the squared
/// components, rounded down.
fn ground_speed(ew_velocity: u16, ns_velocity: u16) -> (speed: u16)
    requires
        ew_velocity < 1024,
        ns_velocity < 1024,
    ensures
        speed as int == isqrt(ew_velocity * ew_velocity + ns_velocity * ns_velocity),
{
    let ew: u64 = ew_velocity as u64;
    let ns: u64 = ns_velocity as u64;
    assert(ew * ew + ns * ns <= 2 * 1023 * 1023) by (nonlinear_arith)
        requires
            ew <= 1023,
            ns <= 1023,
    ;
    let root = integer_sqrt(ew * ew + ns * ns);
    assert(root < 65536) by (nonlinear_arith)
        requires
            root * root <= ew * ew + ns * ns,
            ew * ew + ns * ns <= 2 * 1023 * 1023,
    ;
    root as u16
}

/// Decodes the extended squitter fields of a format 17 frame whose header
/// is in the record: identification, airborne position, velocity or heading,
/// by message type and subtype.
#[verifier::rlimit(50)]
pub fn decode_extended_squitter(mm: &mut ModesMessage)
    requires
        old(mm).msg_type == 17,
        old(mm).header_of_frame(),
        old(mm).aircraft_type == 0,
        old(mm).flight@ == Seq::<char>::empty(),
        !old(mm).fflag && !old(mm).tflag && old(mm).raw_latitude == 0 && old(mm).raw_longitude
            == 0,
        old(mm).altitude == 0 && old(mm).unit == AltitudeUnit::Feet,
        old(mm).ew_dir == 0 && old(mm).ew_velocity == 0 && old(mm).ns_dir == 0 && old(
            mm,
        ).ns_velocity == 0,
        old(mm).vert_rate_source == 0 && old(mm).vert_rate_sign == 0 && old(mm).vert_rate == 0
            && old(mm).velocity == 0,
        !old(mm).heading_is_valid && old(mm).heading == 0,
    ensures
        final(mm).identification_of_frame(),
        final(mm).flight@.len() <= 8,
        final(mm).flight@.len() > 0 ==> final(mm).flight@.first() != ' ' && final(mm).flight@.last()
            != ' ',
        final(mm).position_of_frame(),
        final(mm).velocity_of_frame(),
        final(mm).heading_of_frame(),
        final(mm).altitude_of_frame(),
        *final(mm) == (ModesMessage {
            aircraft_type: final(mm).aircraft_type,
            flight: final(mm).flight,
            fflag: final(mm).fflag,
            tflag: final(mm).tflag,
            altitude: final(mm).altitude,
            unit: final(mm).unit,
            raw_latitude: final(mm).raw_latitude,
            raw_longitude: final(mm).raw_longitude,
            ew_dir: final(mm).ew_dir,
            ew_velocity: final(mm).ew_velocity,
            ns_dir: final(mm).ns_dir,
            ns_velocity: final(mm).ns_velocity,
            vert_rate_source: final(mm).vert_rate_source,
            vert_rate_sign: final(mm).vert_rate_sign,
            vert_rate: final(mm).vert_rate,
            velocity: final(mm).velocity,
            heading_is_valid: final(mm).heading_is_valid,
            heading: final(mm).heading,
            ..*old(mm)
        }),
{
    proof {
        lemma2_to64();
        let f = mm.msg@;
        lemma_squitter_bits(f[5], f[6], f[7], f[8], f[9], f[10], f[11]);
    }
    if 1 <= mm.me_type && mm.me_type <= 4 {
        mm.aircraft_type = mm.me_type - 1;
        mm.flight = decode_callsign(&mm.msg, 5);
    } else if 9 <= mm.me_type && mm.me_type <= 18 {
        mm.fflag = (mm.msg[6] & 0x04) != 0;
        mm.tflag = (mm.msg[6] & 0x08) != 0;
        let mut unit = AltitudeUnit::Feet;
        mm.altitude = decode_ac12_field(&mm.msg, &mut unit);
        mm.unit = unit;
        mm.raw_latitude = (((mm.msg[6] & 0x03) as u32) << 15) | ((mm.msg[7] as u32) << 7) | ((
        mm.msg[8] >> 1) as u32);
        mm.raw_longitude = (((mm.msg[8] & 0x01) as u32) << 16) | ((mm.msg[9] as u32) << 8) | (
        mm.msg[10] as u32);
    } else if mm.me_type == 19 && 1 <= mm.me_sub && mm.me_sub <= 4 {
        if mm.me_sub == 1 || mm.me_sub == 2 {
            mm.ew_dir = (mm.msg[5] & 0x04) >> 2;
            mm.ew_velocity = (((mm.msg[5] & 0x03) as u16) << 8) | (mm.msg[6] as u16);
            mm.ns_dir = (mm.msg[7] & 0x80) >> 7;
            mm.ns_velocity = (((mm.msg[7] & 0x7F) as u16) << 3) | (((mm.msg[8] & 0xE0) >> 5) as u16);
            mm.vert_rate_source = (mm.msg[8] & 0x10) >> 4;
            mm.vert_rate_sign = (mm.msg[8] & 0x08) >> 3;
            mm.vert_rate = (((mm.msg[8] & 0x07) as u16) << 6) | (((mm.msg[9] & 0xFC) >> 2) as u16);
            mm.velocity = ground_speed(mm.ew_velocity, mm.ns_velocity);
        } else {
            mm.heading_is_valid = (mm.msg[5] & 0x04) != 0;
            mm.heading = ((((mm.msg[5] & 0x03) as u16) << 5) | ((mm.msg[6] >> 3) as u16)) * 45;
        }
    }
}

/// Takes a frame in: loads it, reads format and length, checks it and
/// repairs it as the policy allows, and finds the sender's address. No
/// other field is read.
fn open_frame(raw_msg: &[u8], fix_errors: bool, aggressive: bool) -> (mm: ModesMessage)
    ensures
        mm.envelope_of(raw_msg@, fix_errors, aggressive, mm.crc_ok),
        mm.fields_are_blank(),
        valid_bits(mm.msg_bits as int),
{
    let mut mm = ModesMessage::default();
    mm.msg = load_frame(raw_msg);
    let ghost f0 = mm.msg@;
    proof {
        lemma2_to64();
        lemma_header_bits(f0[0], f0[1], f0[2], f0[3], f0[4], f0[5], f0[6], f0[7]);
    }
    mm.msg_type = mm.msg[0] >> 3;
    mm.msg_bits = message_len_by_type(mm.msg_type);
    let icao_in_message: bool = mm.msg_type == 11 || mm.msg_type == 17 || mm.msg_type == 18;
    if icao_in_message {
        mm.crc = extract_crc(&mm.msg, mm.msg_bits);
        let computed_crc = modes_checksum(&mm.msg, mm.msg_bits);
        mm.crc_ok = mm.crc == computed_crc;
        if !mm.crc_ok && fix_errors && (mm.msg_type == 11 || mm.msg_type == 17) {
            if let Some(bit) = fix_single_bit_errors(&mut mm.msg, mm.msg_bits) {
                mm.error_bit = Some(bit);
                mm.crc = extract_crc(&mm.msg, mm.msg_bits);
                mm.crc_ok = true;
            } else if aggressive && mm.msg_type == 17 {
                if let Some((bit1, bit2)) = fix_two_bit_errors(&mut mm.msg, mm.msg_bits) {
                    mm.error_bit = Some(bit1);
                    mm.error_bit2 = Some(bit2);
                    mm.crc = extract_crc(&mm.msg, mm.msg_bits);
                    mm.crc_ok = true;
                }
            }
        }
        mm.aa = [mm.msg[1], mm.msg[2], mm.msg[3]];
        assert(mm.aa@ =~= mm.msg@.subrange(1, 4));
    } else {
        let computed_crc = modes_checksum(&mm.msg, mm.msg_bits);
        let received_crc = extract_crc(&mm.msg, mm.msg_bits);
        let recovered_icao: u32 = computed_crc ^ received_crc;
        proof {
            lemma_xor(computed_crc, received_crc, 0);
            lemma_unpack_bits(recovered_icao);
        }
        mm.crc = received_crc;
        mm.aa = [
            ((recovered_icao >> 16) & 0xFF) as u8,
            ((recovered_icao >> 8) & 0xFF) as u8,
            (recovered_icao & 0xFF) as u8,
        ];
        mm.crc_ok = false;
    }
    mm
}

/// Reads the squawk of an identity reply.
fn decode_identity(msg: &[u8; 14]) -> (identity: u16)
    ensures
        identity as int == spec_squawk(msg@),
{
    proof {
        lemma2_to64();
        let f = msg@;
        lemma_squawk_bits(f[2], f[3], f[4], f[5], f[6]);
    }
    let a: u8 = ((msg[3] & 0x80) >> 5) | (msg[2] & 0x02) | ((msg[2] & 0x08) >> 3);
    let b: u8 = ((msg[3] & 0x02) << 1) | ((msg[3] & 0x08) >> 2) | ((msg[3] & 0x20) >> 5);
    let c: u8 = ((msg[2] & 0x01) << 2) | ((msg[2] & 0x04) >> 1) | ((msg[2] & 0x10) >> 4);
    let d: u8 = ((msg[3] & 0x01) << 2) | ((msg[3] & 0x04) >> 1) | ((msg[3] & 0x10) >> 4);
    (a as u16) * 1000 + (b as u16) * 100 + (c as u16) * 10 + (d as u16)
}

/// Reads the fields that every format has into the record.
fn decode_header(mm: &mut ModesMessage)
    ensures
        final(mm).header_of_frame(),
        *final(mm) == (ModesMessage {
            ca: final(mm).ca,
            me_type: final(mm).me_type,
            me_sub: final(mm).me_sub,
            fs: final(mm).fs,
            dr: final(mm).dr,
            um: final(mm).um,
            ..*old(mm)
        }),
{
    proof {
        lemma2_to64();
        let f = mm.msg@;
        lemma_header_bits(f[0], f[1], f[2], f[3], f[4], f[5], f[6], f[7]);
    }
    mm.ca = mm.msg[0] & 0x07;
    mm.me_type = mm.msg[4] >> 3;
    mm.me_sub = mm.msg[4] & 0x07;
    mm.fs = mm.msg[0] & 0x07;
    mm.dr = (mm.msg[1] >> 3) & 0x1F;
    mm.um = ((mm.msg[1] & 0x07) << 3) | (mm.msg[2] >> 5);
}

/// Decodes a frame. The input is the frame's bytes; what is missing of 14
/// bytes counts as zero. With `fix_errors` a damaged frame of format 11 or
/// 17 is repaired if one inverted bit explains the damage; with
/// `aggressive` as well, a frame of format 17 also if two do.
#[verifier::rlimit(50)]
pub fn decode_modes_message(raw_msg: &[u8], fix_errors: bool, aggressive: bool) -> (mm:
    ModesMessage)
    ensures
        mm.is_decoding_of(raw_msg@, fix_errors, aggressive),
        valid_bits(mm.msg_bits as int),
        mm.identification_of_frame(),
        mm.flight@.len() <= 8,
        mm.flight@.len() > 0 ==> mm.flight@.first() != ' ' && mm.flight@.last() != ' ',
{
    let mut mm = open_frame(raw_msg, fix_errors, aggressive);
    decode_header(&mut mm);
    if mm.msg_type == 5 || mm.msg_type == 21 {
        mm.identity = decode_identity(&mm.msg);
    }
    if mm.msg_type == 0 || mm.msg_type == 4 || mm.msg_type == 16 || mm.msg_type == 20 {
        let mut unit = AltitudeUnit::Feet;
        mm.altitude = decode_ac13_field(&mm.msg, &mut unit);
        mm.unit = unit;
    }
    if mm.msg_type == 17 {
        decode_extended_squitter(&mut mm);
    }
    if mm.msg_type == 20 || mm.msg_type == 21 {
        mm.bds_data = decode_mb_field(&mm.msg);
    }
    proof {
        reveal(ModesMessage::records);
    }
    mm
}

/// Accepts a frame whose address is overlaid on its checksum, if the address
/// recovered from it is the known address given.
pub fn validate_icao(mm: &mut ModesMessage, known_icao: u32)
    ensures
        *final(mm) == (ModesMessage {
            crc_ok: old(mm).crc_ok || old(mm).spec_icao_address() == known_icao,
            ..*old(mm)
        }),
{
    if mm.crc_ok {
        return ;
    }
    let recovered = mm.icao_address();
    if recovered == known_icao {
        mm.crc_ok = true;
    }
}

/// The value of one hexadecimal digit character, upper or lower case.
pub fn hex_digit_val(c: u8) -> (value: Option<u8>)
    ensures
        value == spec_hex_digit_val(c),
        value is Some ==> value->0 < 16,
{
    if 0x30 <= c && c <= 0x39 {
        Some(c - 0x30)
    } else if 0x61 <= c && c <= 0x66 {
        Some(c - 0x61 + 10)
    } else if 0x41 <= c && c <= 0x46 {
        Some(c - 0x41 + 10)
    } else {
        None
    }
}

/// Parses a frame in text form, `*` hexadecimal digits `;`, and decodes it.
/// Text that is not of that form, or holds an odd number of digits or more
/// than 28, is no frame.
pub fn decode_hex_message(hex: &str, fix_errors: bool, aggressive: bool) -> (decoded: Option<
    ModesMessage,
>)
    ensures
        match spec_parse_hex(hex.spec_bytes()) {
            Some(bytes) => decoded is Some && decoded->0.is_decoding_of(
                bytes,
                fix_errors,
                aggressive,
            ),
            None => decoded is None,
        },
{
    let text: &[u8] = hex.as_bytes();
    let len: usize = text.len();
    if len < 4 || text[0] != 0x2a || text[len - 1] != 0x3b {
        return None;
    }
    let digits: usize = len - 2;
    if digits > MODES_LONG_MSG_BYTES * 2 || digits % 2 != 0 {
        return None;
    }
    let ghost body = text@.subrange(1, len - 1);
    let count: usize = digits / 2;
    let mut msg: [u8; 14] = [0u8; 14];
    let mut i: usize = 0;
    while i < count
        invariant
            text@ == hex.spec_bytes(),
            len == text@.len(),
            len >= 4,
            text@[0] == 0x2a,
            text@[len - 1] == 0x3b,
            digits == len - 2,
            digits <= 28,
            count == digits / 2,
            digits % 2 == 0,
            count <= 14,
            i <= count,
            body == text@.subrange(1, len - 1),
            forall|k: int| 0 <= k < 2 * i ==> spec_hex_digit_val(#[trigger] body[k]) is Some,
            forall|k: int|
                0 <= k < i ==> #[trigger] msg@[k] == (spec_hex_digit_val(body[2 * k])->0 * 16
                    + spec_hex_digit_val(body[2 * k + 1])->0) as u8,
        decreases count - i,
    {
        let high = match hex_digit_val(text[1 + 2 * i]) {
            Some(v) => v,
            None => {
                assert(body[2 * i as int] == text@[1 + 2 * i as int]);
                assert(spec_hex_digit_val(body[2 * i as int]) is None);
                return None;
            },
        };
        let low = match hex_digit_val(text[2 + 2 * i]) {
            Some(v) => v,
            None => {
                assert(body[2 * i as int + 1] == text@[2 + 2 * i as int]);
                assert(spec_hex_digit_val(body[2 * i as int + 1]) is None);
                return None;
            },
        };
        proof {
            lemma_nibbles(0);
            assert(body[2 * i as int] == text@[1 + 2 * i as int]);
            assert(body[2 * i as int + 1] == text@[2 + 2 * i as int]);
        }
        msg[i] = (high << 4) | low;
        i += 1;
    }
    let frame = array_prefix(&msg, count);
    proof {
        let bytes = spec_parse_hex(text@)->0;
        assert(spec_parse_hex(text@) is Some);
        assert(frame@ =~= bytes);
    }
    Some(decode_modes_message(frame, fix_errors, aggressive))
}

/// The first `count` bytes of a frame buffer.
fn array_prefix(msg: &[u8; 14], count: usize) -> (prefix: &[u8])
    requires
        count <= 14,
    ensures
        prefix@ == msg@.subrange(0, count as int),
{
    let all: &[u8] = msg.as_slice();
    vstd::slice::slice_subrange(all, 0, count)
}

/// What a transponder capability value means.
pub open spec fn spec_capability_str(ca: u8) -> Seq<char> {
    match ca {
        0 => "Level 1 (Surveillance Only)"@,
        1 => "Level 2 (DF0,4,5,11)"@,
        2 => "Level 3 (DF0,4,5,11,20,21)"@,
        3 => "Level 4 (DF0,4,5,11,20,21,24)"@,
        4 => "Level 2+3+4 (DF0,4,5,11,20,21,24,code7 - is on ground)"@,
        5 => "Level 2+3+4 (DF0,4,5,11,20,21,24,code7 - is airborne)"@,
        6 => "Level 2+3+4 (DF0,4,5,11,20,21,24,code7)"@,
        7 => "Level 7"@,
        _ => "Unknown"@,
    }
}

/// What a transponder capability value means.
pub fn capability_str(ca: u8) -> (text: &'static str)
    ensures
        text@ == spec_capability_str(ca),
{
    match ca {
        0 => "Level 1 (Surveillance Only)",
        1 => "Level 2 (DF0,4,5,11)",
        2 => "Level 3 (DF0,4,5,11,20,21)",
        3 => "Level 4 (DF0,4,5,11,20,21,24)",
        4 => "Level 2+3+4 (DF0,4,5,11,20,21,24,code7 - is on ground)",
        5 => "Level 2+3+4 (DF0,4,5,11,20,21,24,code7 - is airborne)",
        6 => "Level 2+3+4 (DF0,4,5,11,20,21,24,code7)",
        7 => "Level 7",
        _ => "Unknown",
    }
}

/// What an aircraft category within the identification types means.
pub open spec fn spec_aircraft_type_str(aircraft_type: u8) -> Seq<char> {
    match aircraft_type {
        0 => "Aircraft Type D"@,
        1 => "Aircraft Type C"@,
        2 => "Aircraft Type B"@,
        3 => "Aircraft Type A"@,
        _ => "Unknown"@,
    }
}

/// What an aircraft category within the identification types means.
pub fn aircraft_type_str(aircraft_type: u8) -> (text: &'static str)
    ensures
        text@ == spec_aircraft_type_str(aircraft_type),
{
    match aircraft_type {
        0 => "Aircraft Type D",
        1 => "Aircraft Type C",
        2 => "Aircraft Type B",
        3 => "Aircraft Type A",
        _ => "Unknown",
    }
}

/// A squawk that declares an emergency: 7500 for unlawful interference, 7600
/// for a radio failure, 7700 for a general emergency.
pub open spec fn spec_is_emergency_squawk(squawk: u16) -> bool {
    squawk == 7500 || squawk == 7600 || squawk == 7700
}

/// Whether a squawk declares an emergency.
pub fn is_emergency_squawk(squawk: u16) -> (emergency: bool)
    ensures
        emergency == spec_is_emergency_squawk(squawk),
{
    squawk == 7500 || squawk == 7600 || squawk == 7700
}

/// What a flight status value means.
pub open spec fn spec_flight_status_str(fs: u8) -> Seq<char> {
    match fs {
        0 => "Normal, Airborne"@,
        1 => "Normal, On the ground"@,
        2 => "ALERT, Airborne"@,
        3 => "ALERT, On the ground"@,
        4 => "ALERT & Special Position Identification"@,
        5 => "Special Position Identification"@,
        6 => "Value 6 is not assigned"@,
        7 => "Value 7 is not assigned"@,
        _ => "Unknown"@,
    }
}

/// What a flight status value means.
pub fn flight_status_str(fs: u8) -> (text: &'static str)
    ensures
        text@ == spec_flight_status_str(fs),
{
    match fs {
        0 => "Normal, Airborne",
        1 => "Normal, On the ground",
        2 => "ALERT, Airborne",
        3 => "ALERT, On the ground",
        4 => "ALERT & Special Position Identification",
        5 => "Special Position Identification",
        6 => "Value 6 is not assigned",
        7 => "Value 7 is not assigned",
        _ => "Unknown",
    }
}

/// The name of an extended squitter message type and subtype.
pub open spec fn spec_me_description(metype: u8, mesub: u8) -> Seq<char> {
    if 1 <= metype <= 4 {
        "Aircraft Identification and Category"@
    } else if 5 <= metype <= 8 {
        "Surface Position"@
    } else if 9 <= metype <= 18 {
        "Airborne Position (Baro Altitude)"@
    } else if metype == 19 && 1 <= mesub <= 4 {
        "Airborne Velocity"@
    } else if 20 <= metype <= 22 {
        "Airborne Position (GNSS Height)"@
    } else if metype == 23 && mesub == 0 {
        "Test Message"@
    } else if metype == 24 && mesub == 1 {
        "Surface System Status"@
    } else if metype == 28 && mesub == 1 {
        "Extended Squitter Aircraft Status (Emergency)"@
    } else if metype == 28 && mesub == 2 {
        "Extended Squitter Aircraft Status (1090ES TCAS RA)"@
    } else if metype == 29 && (mesub == 0 || mesub == 1) {
        "Target State and Status Message"@
    } else if metype == 31 && (mesub == 0 || mesub == 1) {
        "Aircraft Operational Status Message"@
    } else {
        "Unknown"@
    }
}

/// The name of an extended squitter message type and subtype.
pub fn get_me_description(metype: u8, mesub: u8) -> (text: &'static str)
    ensures
        text@ == spec_me_description(metype, mesub),
{
    if 1 <= metype && metype <= 4 {
        "Aircraft Identification and Category"
    } else if 5 <= metype && metype <= 8 {
        "Surface Position"
    } else if 9 <= metype && metype <= 18 {
        "Airborne Position (Baro Altitude)"
    } else if metype == 19 && 1 <= mesub && mesub <= 4 {
        "Airborne Velocity"
    } else if 20 <= metype && metype <= 22 {
        "Airborne Position (GNSS Height)"
    } else if metype == 23 && mesub == 0 {
        "Test Message"
    } else if metype == 24 && mesub == 1 {
        "Surface System Status"
    } else if metype == 28 && mesub == 1 {
        "Extended Squitter Aircraft Status (Emergency)"
    } else if metype == 28 && mesub == 2 {
        "Extended Squitter Aircraft Status (1090ES TCAS RA)"
    } else if metype == 29 && (mesub == 0 || mesub == 1) {
        "Target State and Status Message"
    } else if metype == 31 && (mesub == 0 || mesub == 1) {
        "Aircraft Operational Status Message"
    } else {
        "Unknown"
    }
}

} // verus!
