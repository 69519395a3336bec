//! The MB field of a Comm-B reply: which register it holds, and its values.
//!
//! A reply does not say which register its 56-bit MB field was read from.
//! The field is tried against the registers in a fixed order, and the first
//! whose structure fits wins. Bit positions count from bit 0 of the MB field.
//!
//! Values that are fractions of their unit are kept as the integer counts
//! that the register holds, with the unit named at each field.

use crate::bits::{bit, byte_at, cut, field, signed, word};
use crate::callsign::{
    ais_indices, decode_callsign, spec_ais_index, spec_callsign, spec_callsign_is_printable,
    AIS_CHARSET,
};
use vstd::arithmetic::power2::lemma2_to64;
use vstd::prelude::*;

verus! {

/// Number of bytes of an MB field.
pub const MB_LEN: usize = 7;

/// Highest plausible selected altitude, in feet.
pub const MAX_SELECTED_ALTITUDE: u16 = 50000;

/// Lowest plausible barometric setting, in tenths of a millibar.
pub const MIN_BARO_SETTING: u16 = 8500;

/// Highest plausible barometric setting, in tenths of a millibar.
pub const MAX_BARO_SETTING: u16 = 11000;

/// Highest plausible roll angle to either side, 60 degrees, in steps of
/// 45/256 degree.
pub const MAX_ROLL_STEPS: i16 = 341;

/// Highest plausible ground speed and true airspeed, in knots.
pub const MAX_SPEED: u16 = 600;

/// Highest plausible indicated airspeed, in knots.
pub const MAX_INDICATED_AIRSPEED: u16 = 500;

/// Highest plausible Mach number, in thousandths.
pub const MAX_MACH: u16 = 1000;

/// What the MB field of a Comm-B reply holds.
#[derive(Debug, Clone, PartialEq, Eq)]
pub enum BdsData {
    /// BDS 1,0: data link capability report.
    DataLinkCapability { continuation_flag: bool, overlay_capability: bool },
    /// BDS 2,0: aircraft identification.
    AircraftIdentification { callsign: String },
    /// BDS 3,0: ACAS active resolution advisory.
    AcasResolutionAdvisory { ara: u16, rac: u8, rat: bool, mte: bool },
    /// BDS 4,0: selected vertical intention. Altitudes in feet, the
    /// barometric setting in tenths of a millibar.
    SelectedVerticalIntention {
        mcp_altitude: Option<u16>,
        fms_altitude: Option<u16>,
        baro_setting: Option<u16>,
        vnav_mode: bool,
        alt_hold_mode: bool,
        approach_mode: bool,
    },
    /// BDS 5,0: track and turn report. The roll angle in steps of 45/256
    /// degree, the true track in steps of 90/512 degree, the track rate in
    /// steps of 8/256 degree per second, the speeds in knots.
    TrackAndTurnReport {
        roll_angle: Option<i16>,
        true_track: Option<u16>,
        ground_speed: Option<u16>,
        track_rate: Option<i16>,
        true_airspeed: Option<u16>,
    },
    /// BDS 6,0: heading and speed report. The magnetic heading in steps of
    /// 90/512 degree, the indicated airspeed in knots, the Mach number in
    /// thousandths, the altitude rates in feet per minute.
    HeadingAndSpeedReport {
        magnetic_heading: Option<u16>,
        indicated_airspeed: Option<u16>,
        mach: Option<u16>,
        baro_altitude_rate: Option<i16>,
        inertial_altitude_rate: Option<i16>,
    },
    /// No register fits: the raw bytes.
    Unknown { bds_code: u8, data: [u8; 7] },
}

/// What a `BdsData` holds, with the callsign as its characters and the raw
/// bytes as a sequence.
pub enum BdsView {
    DataLinkCapability { continuation_flag: bool, overlay_capability: bool },
    AircraftIdentification { callsign: Seq<char> },
    AcasResolutionAdvisory { ara: u16, rac: u8, rat: bool, mte: bool },
    SelectedVerticalIntention {
        mcp_altitude: Option<u16>,
        fms_altitude: Option<u16>,
        baro_setting: Option<u16>,
        vnav_mode: bool,
        alt_hold_mode: bool,
        approach_mode: bool,
    },
    TrackAndTurnReport {
        roll_angle: Option<i16>,
        true_track: Option<u16>,
        ground_speed: Option<u16>,
        track_rate: Option<i16>,
        true_airspeed: Option<u16>,
    },
    HeadingAndSpeedReport {
        magnetic_heading: Option<u16>,
        indicated_airspeed: Option<u16>,
        mach: Option<u16>,
        baro_altitude_rate: Option<i16>,
        inertial_altitude_rate: Option<i16>,
    },
    Unknown { bds_code: u8, data: Seq<u8> },
}

impl View for BdsData {
    type V = BdsView;

    open spec fn view(&self) -> BdsView {
        match self {
            BdsData::DataLinkCapability { continuation_flag, overlay_capability } => {
                BdsView::DataLinkCapability {
                    continuation_flag: *continuation_flag,
                    overlay_capability: *overlay_capability,
                }
            },
            BdsData::AircraftIdentification { callsign } => BdsView::AircraftIdentification {
                callsign: callsign@,
            },
            BdsData::AcasResolutionAdvisory { ara, rac, rat, mte } => {
                BdsView::AcasResolutionAdvisory { ara: *ara, rac: *rac, rat: *rat, mte: *mte }
            },
            BdsData::SelectedVerticalIntention {
                mcp_altitude,
                fms_altitude,
                baro_setting,
                vnav_mode,
                alt_hold_mode,
                approach_mode,
            } => BdsView::SelectedVerticalIntention {
                mcp_altitude: *mcp_altitude,
                fms_altitude: *fms_altitude,
                baro_setting: *baro_setting,
                vnav_mode: *vnav_mode,
                alt_hold_mode: *alt_hold_mode,
                approach_mode: *approach_mode,
            },
            BdsData::TrackAndTurnReport {
                roll_angle,
                true_track,
                ground_speed,
                track_rate,
                true_airspeed,
            } => BdsView::TrackAndTurnReport {
                roll_angle: *roll_angle,
                true_track: *true_track,
                ground_speed: *ground_speed,
                track_rate: *track_rate,
                true_airspeed: *true_airspeed,
            },
            BdsData::HeadingAndSpeedReport {
                magnetic_heading,
                indicated_airspeed,
                mach,
                baro_altitude_rate,
                inertial_altitude_rate,
            } => BdsView::HeadingAndSpeedReport {
                magnetic_heading: *magnetic_heading,
                indicated_airspeed: *indicated_airspeed,
                mach: *mach,
                baro_altitude_rate: *baro_altitude_rate,
                inertial_altitude_rate: *inertial_altitude_rate,
            },
            BdsData::Unknown { bds_code, data } => BdsView::Unknown {
                bds_code: *bds_code,
                data: data@,
            },
        }
    }
}

/// The view of what a probe returned.
pub open spec fn probe_view(found: Option<BdsData>) -> Option<BdsView> {
    match found {
        Some(bds) => Some(bds@),
        None => None,
    }
}

/// A value that is present when its status bit is set.
pub open spec fn gated(status: u32, value: int) -> Option<int> {
    if status == 1 {
        Some(value)
    } else {
        None
    }
}

/// How many of five status bits are set.
pub open spec fn status_count(a: u32, b: u32, c: u32, d: u32, e: u32) -> int {
    a + b + c + d + e
}

/// A value that is absent or at most `limit`.
pub open spec fn within(value: Option<int>, limit: int) -> bool {
    match value {
        Some(v) => v <= limit,
        None => true,
    }
}

/// An optional number as an optional `u16`.
pub open spec fn as_u16(value: Option<int>) -> Option<u16> {
    match value {
        Some(v) => Some(v as u16),
        None => None,
    }
}

/// An optional number as an optional `i16`.
pub open spec fn as_i16(value: Option<int>) -> Option<i16> {
    match value {
        Some(v) => Some(v as i16),
        None => None,
    }
}

/// BDS 1,0 fits when the first byte is 0x10. Bit 8 is the continuation flag,
/// bit 14 the overlay capability.
pub open spec fn spec_bds_10(mb: Seq<u8>) -> Option<BdsView> {
    if field(mb, 0, 8) != 0x10 {
        None
    } else {
        Some(
            BdsView::DataLinkCapability {
                continuation_flag: bit(mb, 8) == 1,
                overlay_capability: bit(mb, 14) == 1,
            },
        )
    }
}

/// BDS 2,0 fits when all eight character indices, from bit 0 on, stand for
/// an assigned character, and the callsign is not empty once the spaces
/// around it are stripped.
pub open spec fn spec_bds_20(mb: Seq<u8>) -> Option<BdsView> {
    if !spec_callsign_is_printable(mb, 0) || spec_callsign(mb, 0).len() == 0 {
        None
    } else {
        Some(BdsView::AircraftIdentification { callsign: spec_callsign(mb, 0) })
    }
}

/// BDS 3,0 fits when the active resolution advisories (bits 8 to 21) or the
/// complements record (bits 22 to 25) are not zero. Bit 26 says that the
/// advisory was terminated, bit 27 that several threats were met. The first
/// byte is the register's place and no part of the advisory.
pub open spec fn spec_bds_30(mb: Seq<u8>) -> Option<BdsView> {
    if field(mb, 8, 14) == 0 && field(mb, 22, 4) == 0 {
        None
    } else {
        Some(
            BdsView::AcasResolutionAdvisory {
                ara: field(mb, 8, 14) as u16,
                rac: field(mb, 22, 4) as u8,
                rat: bit(mb, 26) == 1,
                mte: bit(mb, 27) == 1,
            },
        )
    }
}

/// The MCP/FCU selected altitude of BDS 4,0 in feet: status bit 0, twelve
/// bits from bit 1 in steps of 16 feet.
pub open spec fn spec_mcp_altitude(mb: Seq<u8>) -> Option<int> {
    gated(bit(mb, 0), field(mb, 1, 12) * 16)
}

/// The FMS selected altitude of BDS 4,0 in feet: status bit 16, twelve bits
/// from bit 17 in steps of 16 feet.
pub open spec fn spec_fms_altitude(mb: Seq<u8>) -> Option<int> {
    gated(bit(mb, 16), field(mb, 17, 12) * 16)
}

/// The barometric setting of BDS 4,0 in tenths of a millibar: status bit 32,
/// twelve bits from bit 33 in steps of 0.1 mb above 800 mb.
pub open spec fn spec_baro_setting(mb: Seq<u8>) -> Option<int> {
    gated(bit(mb, 32), 8000 + field(mb, 33, 12))
}

/// BDS 4,0 fits when at least one of its three values is present, no
/// selected altitude exceeds 50000 feet and the barometric setting lies
/// between 850 and 1100 mb. Bits 52 to 54 are the VNAV, altitude hold and
/// approach modes.
pub open spec fn spec_bds_40(mb: Seq<u8>) -> Option<BdsView> {
    let mcp = spec_mcp_altitude(mb);
    let fms = spec_fms_altitude(mb);
    let baro = spec_baro_setting(mb);
    if mcp is None && fms is None && baro is None {
        None
    } else if !within(mcp, 50000) || !within(fms, 50000) {
        None
    } else if baro is Some && !(8500 <= baro->0 <= 11000) {
        None
    } else {
        Some(
            BdsView::SelectedVerticalIntention {
                mcp_altitude: as_u16(mcp),
                fms_altitude: as_u16(fms),
                baro_setting: as_u16(baro),
                vnav_mode: bit(mb, 52) == 1,
                alt_hold_mode: bit(mb, 53) == 1,
                approach_mode: bit(mb, 54) == 1,
            },
        )
    }
}

/// The roll angle of BDS 5,0 in steps of 45/256 degree: status bit 0, ten
/// bits from bit 1, signed.
pub open spec fn spec_roll_angle(mb: Seq<u8>) -> Option<int> {
    gated(bit(mb, 0), signed(field(mb, 1, 10) as int, 10))
}

/// The true track of BDS 5,0 in steps of 90/512 degree: status bit 11,
/// eleven bits from bit 12.
pub open spec fn spec_true_track(mb: Seq<u8>) -> Option<int> {
    gated(bit(mb, 11), field(mb, 12, 11) as int)
}

/// The ground speed of BDS 5,0 in knots: status bit 22, ten bits from bit
/// 23 in steps of 2 knots.
pub open spec fn spec_ground_speed(mb: Seq<u8>) -> Option<int> {
    gated(bit(mb, 22), field(mb, 23, 10) * 2)
}

/// The track rate of BDS 5,0 in steps of 8/256 degree per second: status
/// bit 25, nine bits from bit 34, signed.
pub open spec fn spec_track_rate(mb: Seq<u8>) -> Option<int> {
    gated(bit(mb, 25), signed(field(mb, 34, 9) as int, 9))
}

/// The true airspeed of BDS 5,0 in knots: status bit 36, ten bits from bit
/// 43 in steps of 2 knots.
pub open spec fn spec_true_airspeed(mb: Seq<u8>) -> Option<int> {
    gated(bit(mb, 36), field(mb, 43, 10) * 2)
}

/// BDS 5,0 fits when at least two of its five values are present, the roll
/// angle is at most 60 degrees to either side, and ground speed and true
/// airspeed are at most 600 knots.
pub open spec fn spec_bds_50(mb: Seq<u8>) -> Option<BdsView> {
    let roll = spec_roll_angle(mb);
    let gs = spec_ground_speed(mb);
    let tas = spec_true_airspeed(mb);
    if status_count(bit(mb, 0), bit(mb, 11), bit(mb, 22), bit(mb, 25), bit(mb, 36)) < 2 {
        None
    } else if roll is Some && !(-341 <= roll->0 <= 341) {
        None
    } else if !within(gs, 600) || !within(tas, 600) {
        None
    } else {
        Some(
            BdsView::TrackAndTurnReport {
                roll_angle: as_i16(roll),
                true_track: as_u16(spec_true_track(mb)),
                ground_speed: as_u16(gs),
                track_rate: as_i16(spec_track_rate(mb)),
                true_airspeed: as_u16(tas),
            },
        )
    }
}

/// The magnetic heading of BDS 6,0 in steps of 90/512 degree: status bit 0,
/// eleven bits from bit 1.
pub open spec fn spec_magnetic_heading(mb: Seq<u8>) -> Option<int> {
    gated(bit(mb, 0), field(mb, 1, 11) as int)
}

/// The indicated airspeed of BDS 6,0 in knots: status bit 11, ten bits from
/// bit 12.
pub open spec fn spec_indicated_airspeed(mb: Seq<u8>) -> Option<int> {
    gated(bit(mb, 11), field(mb, 12, 10) as int)
}

/// The Mach number of BDS 6,0 in thousandths: status bit 22, ten bits from
/// bit 23 in steps of 0.008.
pub open spec fn spec_mach(mb: Seq<u8>) -> Option<int> {
    gated(bit(mb, 22), field(mb, 23, 10) * 8)
}

/// The barometric altitude rate of BDS 6,0 in feet per minute: status bit
/// 25, ten bits from bit 34, signed, in steps of 32 feet per minute.
pub open spec fn spec_baro_altitude_rate(mb: Seq<u8>) -> Option<int> {
    gated(bit(mb, 25), signed(field(mb, 34, 10) as int, 10) * 32)
}

/// The inertial altitude rate of BDS 6,0 in feet per minute: status bit 36,
/// ten bits from bit 44, signed, in steps of 32 feet per minute.
pub open spec fn spec_inertial_altitude_rate(mb: Seq<u8>) -> Option<int> {
    gated(bit(mb, 36), signed(field(mb, 44, 10) as int, 10) * 32)
}

/// BDS 6,0 fits when at least two of its five values are present, the
/// indicated airspeed is at most 500 knots and the Mach number at most 1.
pub open spec fn spec_bds_60(mb: Seq<u8>) -> Option<BdsView> {
    let ias = spec_indicated_airspeed(mb);
    let mach = spec_mach(mb);
    if status_count(bit(mb, 0), bit(mb, 11), bit(mb, 22), bit(mb, 25), bit(mb, 36)) < 2 {
        None
    } else if !within(ias, 500) || !within(mach, 1000) {
        None
    } else {
        Some(
            BdsView::HeadingAndSpeedReport {
                magnetic_heading: as_u16(spec_magnetic_heading(mb)),
                indicated_airspeed: as_u16(ias),
                mach: as_u16(mach),
                baro_altitude_rate: as_i16(spec_baro_altitude_rate(mb)),
                inertial_altitude_rate: as_i16(spec_inertial_altitude_rate(mb)),
            },
        )
    }
}

/// The register that an MB field is taken for: the first that fits, in the
/// order 2,0, 4,0, 5,0, 6,0, 3,0, 1,0; else the raw bytes.
pub open spec fn spec_identify_mb(mb: Seq<u8>) -> BdsView {
    if spec_bds_20(mb) is Some {
        spec_bds_20(mb)->0
    } else if spec_bds_40(mb) is Some {
        spec_bds_40(mb)->0
    } else if spec_bds_50(mb) is Some {
        spec_bds_50(mb)->0
    } else if spec_bds_60(mb) is Some {
        spec_bds_60(mb)->0
    } else if spec_bds_30(mb) is Some {
        spec_bds_30(mb)->0
    } else if spec_bds_10(mb) is Some {
        spec_bds_10(mb)->0
    } else {
        BdsView::Unknown { bds_code: 0, data: mb }
    }
}

/// What the MB field of a frame, bytes 4 to 10, is taken for; nothing for a
/// frame of fewer than 11 bytes.
pub open spec fn spec_decode_mb(frame: Seq<u8>) -> Option<BdsView> {
    if frame.len() < 11 {
        None
    } else {
        Some(spec_identify_mb(frame.subrange(4, 11)))
    }
}

proof fn lemma_bds_10_bits(b0: u8, b1: u8, b2: u8, b3: u8, b4: u8)
    by (bit_vector)
    ensures
        (b0 == 0x10) == (cut(word(b0, b1, b2, b3), 24u32, 0xffu32) == 0x10),
        ((b1 & 0x80) != 0) == (cut(word(b1, b2, b3, b4), 31u32, 0x1u32) == 1),
        ((b1 & 0x02) != 0) == (cut(word(b1, b2, b3, b4), 25u32, 0x1u32) == 1),
{
}

/// Probes an MB field for BDS 1,0, the data link capability report.
pub fn try_decode_bds_10(mb: &[u8]) -> (found: Option<BdsData>)
    requires
        mb@.len() >= 7,
    ensures
        probe_view(found) == spec_bds_10(mb@),
{
    proof {
        lemma2_to64();
        lemma_bds_10_bits(mb@[0], mb@[1], mb@[2], mb@[3], mb@[4]);
    }
    if mb[0] != 0x10 {
        return None;
    }
    let continuation_flag: bool = (mb[1] & 0x80) != 0;
    let overlay_capability: bool = (mb[1] & 0x02) != 0;
    Some(BdsData::DataLinkCapability { continuation_flag, overlay_capability })
}

/// Probes an MB field for BDS 2,0, the aircraft identification.
pub fn try_decode_bds_20(mb: &[u8]) -> (found: Option<BdsData>)
    requires
        mb@.len() >= 7,
    ensures
        probe_view(found) == spec_bds_20(mb@),
{
    let indices = ais_indices(mb, 0);
    let mut k: usize = 0;
    while k < 8
        invariant
            k <= 8,
            forall|i: int| 0 <= i < 8 ==> #[trigger] indices@[i] < 64,
            forall|i: int|
                0 <= i < 8 ==> #[trigger] indices@[i] as int == spec_ais_index(mb@, 0, i),
            forall|i: int| 0 <= i < k ==> AIS_CHARSET@[#[trigger] spec_ais_index(mb@, 0, i)] != '?',
        decreases 8 - k,
    {
        if AIS_CHARSET[indices[k] as usize] == '?' {
            assert(AIS_CHARSET@[spec_ais_index(mb@, 0, k as int)] == '?');
            return None;
        }
        k += 1;
    }
    let callsign = decode_callsign(mb, 0);
    if callsign.as_str().unicode_len() == 0 {
        return None;
    }
    Some(BdsData::AircraftIdentification { callsign })
}

proof fn lemma_bds_30_bits(b1: u8, b2: u8, b3: u8, b4: u8, b5: u8, b6: u8)
    by (bit_vector)
    ensures
        (((b1 as u16) << 6) | ((b2 >> 2) as u16)) as u32 == cut(word(b1, b2, b3, b4), 18u32, 0x3fffu32),
        (((b2 & 0x03) << 2) | (b3 >> 6)) as u32 == cut(word(b2, b3, b4, b5), 22u32, 0xfu32),
        ((b3 & 0x20) != 0) == (cut(word(b3, b4, b5, b6), 29u32, 0x1u32) == 1),
        ((b3 & 0x10) != 0) == (cut(word(b3, b4, b5, b6), 28u32, 0x1u32) == 1),
{
}

/// Probes an MB field for BDS 3,0, the ACAS active resolution advisory.
pub fn try_decode_bds_30(mb: &[u8]) -> (found: Option<BdsData>)
    requires
        mb@.len() >= 7,
    ensures
        probe_view(found) == spec_bds_30(mb@),
{
    proof {
        lemma2_to64();
        lemma_bds_30_bits(mb@[1], mb@[2], mb@[3], mb@[4], mb@[5], mb@[6]);
    }
    let ara: u16 = ((mb[1] as u16) << 6) | ((mb[2] >> 2) as u16);
    let rac: u8 = ((mb[2] & 0x03) << 2) | (mb[3] >> 6);
    let rat: bool = (mb[3] & 0x20) != 0;
    let mte: bool = (mb[3] & 0x10) != 0;
    if ara == 0 && rac == 0 {
        return None;
    }
    Some(BdsData::AcasResolutionAdvisory { ara, rac, rat, mte })
}

proof fn lemma_bds_40_bits(
    b0: u8,
    b1: u8,
    b2: u8,
    b3: u8,
    b4: u8,
    b5: u8,
    b6: u8,
    b7: u8,
    b8: u8,
    b9: u8,
)
    by (bit_vector)
    ensures
        ((b0 & 0x80) != 0) == (cut(word(b0, b1, b2, b3), 31u32, 0x1u32) == 1),
        (cut(word(b0, b1, b2, b3), 31u32, 0x1u32) == 1) || (cut(word(b0, b1, b2, b3), 31u32, 0x1u32) == 0),
        ((b2 & 0x80) != 0) == (cut(word(b2, b3, b4, b5), 31u32, 0x1u32) == 1),
        (cut(word(b2, b3, b4, b5), 31u32, 0x1u32) == 1) || (cut(word(b2, b3, b4, b5), 31u32, 0x1u32) == 0),
        ((b4 & 0x80) != 0) == (cut(word(b4, b5, b6, b7), 31u32, 0x1u32) == 1),
        (cut(word(b4, b5, b6, b7), 31u32, 0x1u32) == 1) || (cut(word(b4, b5, b6, b7), 31u32, 0x1u32) == 0),
        ((((b0 as u16) & 0x7F) << 5) | ((b1 >> 3) as u16)) as u32 == cut(word(b0, b1, b2, b3), 19u32, 0xfffu32),
        ((((b2 as u16) & 0x7F) << 5) | ((b3 >> 3) as u16)) as u32 == cut(word(b2, b3, b4, b5), 19u32, 0xfffu32),
        ((((b4 as u16) & 0x7F) << 5) | ((b5 >> 3) as u16)) as u32 == cut(word(b4, b5, b6, b7), 19u32, 0xfffu32),
        cut(word(b0, b1, b2, b3), 19u32, 0xfffu32) < 4096 && cut(word(b2, b3, b4, b5), 19u32, 0xfffu32) < 4096 && cut(word(b4, b5, b6, b7), 19u32, 0xfffu32) < 4096,
        ((b6 & 0x08) != 0) == (cut(word(b6, b7, b8, b9), 27u32, 0x1u32) == 1),
        ((b6 & 0x04) != 0) == (cut(word(b6, b7, b8, b9), 26u32, 0x1u32) == 1),
        ((b6 & 0x02) != 0) == (cut(word(b6, b7, b8, b9), 25u32, 0x1u32) == 1),
{
}

/// Probes an MB field for BDS 4,0, the selected vertical intention.
pub fn try_decode_bds_40(mb: &[u8]) -> (found: Option<BdsData>)
    requires
        mb@.len() >= 7,
    ensures
        probe_view(found) == spec_bds_40(mb@),
{
    proof {
        lemma2_to64();
        let f = mb@;
        lemma_bds_40_bits(
            f[0],
            f[1],
            f[2],
            f[3],
            f[4],
            f[5],
            f[6],
            byte_at(f, 7),
            byte_at(f, 8),
            byte_at(f, 9),
        );
    }
    let mcp_altitude: Option<u16> = if (mb[0] & 0x80) != 0 {
        let raw: u16 = (((mb[0] as u16) & 0x7F) << 5) | ((mb[1] >> 3) as u16);
        Some(raw * 16)
    } else {
        None
    };
    let fms_altitude: Option<u16> = if (mb[2] & 0x80) != 0 {
        let raw: u16 = (((mb[2] as u16) & 0x7F) << 5) | ((mb[3] >> 3) as u16);
        Some(raw * 16)
    } else {
        None
    };
    let baro_setting: Option<u16> = if (mb[4] & 0x80) != 0 {
        let raw: u16 = (((mb[4] as u16) & 0x7F) << 5) | ((mb[5] >> 3) as u16);
        Some(8000 + raw)
    } else {
        None
    };
    let vnav_mode: bool = (mb[6] & 0x08) != 0;
    let alt_hold_mode: bool = (mb[6] & 0x04) != 0;
    let approach_mode: bool = (mb[6] & 0x02) != 0;
    if mcp_altitude.is_none() && fms_altitude.is_none() && baro_setting.is_none() {
        return None;
    }
    if let Some(alt) = mcp_altitude {
        if alt > MAX_SELECTED_ALTITUDE {
            return None;
        }
    }
    if let Some(alt) = fms_altitude {
        if alt > MAX_SELECTED_ALTITUDE {
            return None;
        }
    }
    if let Some(baro) = baro_setting {
        if baro < MIN_BARO_SETTING || baro > MAX_BARO_SETTING {
            return None;
        }
    }
    Some(
        BdsData::SelectedVerticalIntention {
            mcp_altitude,
            fms_altitude,
            baro_setting,
            vnav_mode,
            alt_hold_mode,
            approach_mode,
        },
    )
}

/// A two's-complement number of `width` bits as a signed number.
fn sign_extend(raw: u16, width: u32) -> (value: i16)
    requires
        width == 9 || width == 10,
        raw < vstd::arithmetic::power2::pow2(width as nat),
    ensures
        value as int == signed(raw as int, width as nat),
        width == 10 ==> -512 <= value < 512,
        width == 9 ==> -256 <= value < 256,
{
    proof {
        lemma2_to64();
    }
    if width == 10 {
        if raw >= 512 {
            raw as i16 - 1024
        } else {
            raw as i16
        }
    } else {
        if raw >= 256 {
            raw as i16 - 512
        } else {
            raw as i16
        }
    }
}

/// How many of five flags are set.
fn count_set(a: bool, b: bool, c: bool, d: bool, e: bool) -> (n: u8)
    ensures
        n as int == (if a { 1int } else { 0 }) + (if b { 1int } else { 0 }) + (if c { 1int } else { 0 })
            + (if d { 1int } else { 0 }) + (if e { 1int } else { 0 }),
{
    let mut n: u8 = 0;
    if a {
        n += 1;
    }
    if b {
        n += 1;
    }
    if c {
        n += 1;
    }
    if d {
        n += 1;
    }
    if e {
        n += 1;
    }
    n
}

proof fn lemma_bds_50_bits(
    b0: u8,
    b1: u8,
    b2: u8,
    b3: u8,
    b4: u8,
    b5: u8,
    b6: u8,
    b7: u8,
    b8: u8,
)
    by (bit_vector)
    ensures
        ((b0 & 0x80) != 0) == (cut(word(b0, b1, b2, b3), 31u32, 0x1u32) == 1),
        (cut(word(b0, b1, b2, b3), 31u32, 0x1u32) == 1) || (cut(word(b0, b1, b2, b3), 31u32, 0x1u32) == 0),
        ((b1 & 0x10) != 0) == (cut(word(b1, b2, b3, b4), 28u32, 0x1u32) == 1),
        (cut(word(b1, b2, b3, b4), 28u32, 0x1u32) == 1) || (cut(word(b1, b2, b3, b4), 28u32, 0x1u32) == 0),
        ((b2 & 0x02) != 0) == (cut(word(b2, b3, b4, b5), 25u32, 0x1u32) == 1),
        (cut(word(b2, b3, b4, b5), 25u32, 0x1u32) == 1) || (cut(word(b2, b3, b4, b5), 25u32, 0x1u32) == 0),
        ((b3 & 0x40) != 0) == (cut(word(b3, b4, b5, b6), 30u32, 0x1u32) == 1),
        (cut(word(b3, b4, b5, b6), 30u32, 0x1u32) == 1) || (cut(word(b3, b4, b5, b6), 30u32, 0x1u32) == 0),
        ((b4 & 0x08) != 0) == (cut(word(b4, b5, b6, b7), 27u32, 0x1u32) == 1),
        (cut(word(b4, b5, b6, b7), 27u32, 0x1u32) == 1) || (cut(word(b4, b5, b6, b7), 27u32, 0x1u32) == 0),
        ((((b0 as u16) & 0x7F) << 3) | ((b1 >> 5) as u16)) as u32 == cut(word(b0, b1, b2, b3), 21u32, 0x3ffu32),
        ((((b1 as u16) & 0x0F) << 7) | ((b2 >> 1) as u16)) as u32 == cut(word(b1, b2, b3, b4), 17u32, 0x7ffu32),
        ((((b2 as u16) & 0x01) << 9) | ((b3 as u16) << 1) | ((b4 >> 7) as u16)) as u32 == cut(word(b2, b3, b4, b5), 15u32, 0x3ffu32),
        ((((b4 as u16) & 0x3F) << 3) | ((b5 >> 5) as u16)) as u32 == cut(word(b4, b5, b6, b7), 21u32, 0x1ffu32),
        ((((b5 as u16) & 0x1F) << 5) | ((b6 >> 3) as u16)) as u32 == cut(word(b5, b6, b7, b8), 19u32, 0x3ffu32),
        cut(word(b0, b1, b2, b3), 21u32, 0x3ffu32) < 1024 && cut(word(b1, b2, b3, b4), 17u32, 0x7ffu32) < 2048 && cut(word(b2, b3, b4, b5), 15u32, 0x3ffu32) < 1024 && cut(word(b4, b5, b6, b7), 21u32, 0x1ffu32) < 512 && cut(word(b5, b6, b7, b8), 19u32, 0x3ffu32) < 1024,
{
}

/// Probes an MB field for BDS 5,0, the track and turn report.
pub fn try_decode_bds_50(mb: &[u8]) -> (found: Option<BdsData>)
    requires
        mb@.len() >= 7,
    ensures
        probe_view(found) == spec_bds_50(mb@),
{
    proof {
        lemma2_to64();
        let f = mb@;
        lemma_bds_50_bits(f[0], f[1], f[2], f[3], f[4], f[5], f[6], byte_at(f, 7), byte_at(f, 8));
    }
    let roll_status: bool = (mb[0] & 0x80) != 0;
    let track_status: bool = (mb[1] & 0x10) != 0;
    let gs_status: bool = (mb[2] & 0x02) != 0;
    let track_rate_status: bool = (mb[3] & 0x40) != 0;
    let tas_status: bool = (mb[4] & 0x08) != 0;
    let roll_angle: Option<i16> = if roll_status {
        let raw: u16 = (((mb[0] as u16) & 0x7F) << 3) | ((mb[1] >> 5) as u16);
        Some(sign_extend(raw, 10))
    } else {
        None
    };
    let true_track: Option<u16> = if track_status {
        Some((((mb[1] as u16) & 0x0F) << 7) | ((mb[2] >> 1) as u16))
    } else {
        None
    };
    let ground_speed: Option<u16> = if gs_status {
        let raw: u16 = (((mb[2] as u16) & 0x01) << 9) | ((mb[3] as u16) << 1) | ((mb[4] >> 7) as u16);
        Some(raw * 2)
    } else {
        None
    };
    let track_rate: Option<i16> = if track_rate_status {
        let raw: u16 = (((mb[4] as u16) & 0x3F) << 3) | ((mb[5] >> 5) as u16);
        Some(sign_extend(raw, 9))
    } else {
        None
    };
    let true_airspeed: Option<u16> = if tas_status {
        let raw: u16 = (((mb[5] as u16) & 0x1F) << 5) | ((mb[6] >> 3) as u16);
        Some(raw * 2)
    } else {
        None
    };
    if count_set(roll_status, track_status, gs_status, track_rate_status, tas_status) < 2 {
        return None;
    }
    if let Some(roll) = roll_angle {
        if roll > MAX_ROLL_STEPS || roll < -MAX_ROLL_STEPS {
            return None;
        }
    }
    if let Some(gs) = ground_speed {
        if gs > MAX_SPEED {
            return None;
        }
    }
    if let Some(tas) = true_airspeed {
        if tas > MAX_SPEED {
            return None;
        }
    }
    Some(
        BdsData::TrackAndTurnReport {
            roll_angle,
            true_track,
            ground_speed,
            track_rate,
            true_airspeed,
        },
    )
}

proof fn lemma_bds_60_bits(
    b0: u8,
    b1: u8,
    b2: u8,
    b3: u8,
    b4: u8,
    b5: u8,
    b6: u8,
    b7: u8,
    b8: u8,
)
    by (bit_vector)
    ensures
        ((b0 & 0x80) != 0) == (cut(word(b0, b1, b2, b3), 31u32, 0x1u32) == 1),
        (cut(word(b0, b1, b2, b3), 31u32, 0x1u32) == 1) || (cut(word(b0, b1, b2, b3), 31u32, 0x1u32) == 0),
        ((b1 & 0x10) != 0) == (cut(word(b1, b2, b3, b4), 28u32, 0x1u32) == 1),
        (cut(word(b1, b2, b3, b4), 28u32, 0x1u32) == 1) || (cut(word(b1, b2, b3, b4), 28u32, 0x1u32) == 0),
        ((b2 & 0x02) != 0) == (cut(word(b2, b3, b4, b5), 25u32, 0x1u32) == 1),
        (cut(word(b2, b3, b4, b5), 25u32, 0x1u32) == 1) || (cut(word(b2, b3, b4, b5), 25u32, 0x1u32) == 0),
        ((b3 & 0x40) != 0) == (cut(word(b3, b4, b5, b6), 30u32, 0x1u32) == 1),
        (cut(word(b3, b4, b5, b6), 30u32, 0x1u32) == 1) || (cut(word(b3, b4, b5, b6), 30u32, 0x1u32) == 0),
        ((b4 & 0x08) != 0) == (cut(word(b4, b5, b6, b7), 27u32, 0x1u32) == 1),
        (cut(word(b4, b5, b6, b7), 27u32, 0x1u32) == 1) || (cut(word(b4, b5, b6, b7), 27u32, 0x1u32) == 0),
        ((((b0 as u16) & 0x7F) << 4) | ((b1 >> 4) as u16)) as u32 == cut(word(b0, b1, b2, b3), 20u32, 0x7ffu32),
        ((((b1 as u16) & 0x0F) << 6) | ((b2 >> 2) as u16)) as u32 == cut(word(b1, b2, b3, b4), 18u32, 0x3ffu32),
        ((((b2 as u16) & 0x01) << 9) | ((b3 as u16) << 1) | ((b4 >> 7) as u16)) as u32 == cut(word(b2, b3, b4, b5), 15u32, 0x3ffu32),
        ((((b4 as u16) & 0x3F) << 4) | ((b5 >> 4) as u16)) as u32 == cut(word(b4, b5, b6, b7), 20u32, 0x3ffu32),
        ((((b5 as u16) & 0x0F) << 6) | ((b6 >> 2) as u16)) as u32 == cut(word(b5, b6, b7, b8), 18u32, 0x3ffu32),
        cut(word(b0, b1, b2, b3), 20u32, 0x7ffu32) < 2048 && cut(word(b1, b2, b3, b4), 18u32, 0x3ffu32) < 1024 && cut(word(b2, b3, b4, b5), 15u32, 0x3ffu32) < 1024 && cut(word(b4, b5, b6, b7), 20u32, 0x3ffu32) < 1024 && cut(word(b5, b6, b7, b8), 18u32, 0x3ffu32) < 1024,
{
}

/// Probes an MB field for BDS 6,0, the heading and speed report.
pub fn try_decode_bds_60(mb: &[u8]) -> (found: Option<BdsData>)
    requires
        mb@.len() >= 7,
    ensures
        probe_view(found) == spec_bds_60(mb@),
{
    proof {
        lemma2_to64();
        let f = mb@;
        lemma_bds_60_bits(f[0], f[1], f[2], f[3], f[4], f[5], f[6], byte_at(f, 7), byte_at(f, 8));
    }
    let hdg_status: bool = (mb[0] & 0x80) != 0;
    let ias_status: bool = (mb[1] & 0x10) != 0;
    let mach_status: bool = (mb[2] & 0x02) != 0;
    let baro_rate_status: bool = (mb[3] & 0x40) != 0;
    let inertial_rate_status: bool = (mb[4] & 0x08) != 0;
    let magnetic_heading: Option<u16> = if hdg_status {
        Some((((mb[0] as u16) & 0x7F) << 4) | ((mb[1] >> 4) as u16))
    } else {
        None
    };
    let indicated_airspeed: Option<u16> = if ias_status {
        Some((((mb[1] as u16) & 0x0F) << 6) | ((mb[2] >> 2) as u16))
    } else {
        None
    };
    let mach: Option<u16> = if mach_status {
        let raw: u16 = (((mb[2] as u16) & 0x01) << 9) | ((mb[3] as u16) << 1) | ((mb[4] >> 7) as u16);
        Some(raw * 8)
    } else {
        None
    };
    let baro_altitude_rate: Option<i16> = if baro_rate_status {
        let raw: u16 = (((mb[4] as u16) & 0x3F) << 4) | ((mb[5] >> 4) as u16);
        Some(sign_extend(raw, 10) * 32)
    } else {
        None
    };
    let inertial_altitude_rate: Option<i16> = if inertial_rate_status {
        let raw: u16 = (((mb[5] as u16) & 0x0F) << 6) | ((mb[6] >> 2) as u16);
        Some(sign_extend(raw, 10) * 32)
    } else {
        None
    };
    if count_set(hdg_status, ias_status, mach_status, baro_rate_status, inertial_rate_status) < 2 {
        return None;
    }
    if let Some(ias) = indicated_airspeed {
        if ias > MAX_INDICATED_AIRSPEED {
            return None;
        }
    }
    if let Some(m) = mach {
        if m > MAX_MACH {
            return None;
        }
    }
    Some(
        BdsData::HeadingAndSpeedReport {
            magnetic_heading,
            indicated_airspeed,
            mach,
            baro_altitude_rate,
            inertial_altitude_rate,
        },
    )
}

/// Identifies the MB field of a Comm-B reply, bytes 4 to 10 of the frame.
pub fn decode_mb_field(msg: &[u8]) -> (found: Option<BdsData>)
    ensures
        probe_view(found) == spec_decode_mb(msg@),
{
    if msg.len() < 11 {
        return None;
    }
    let mb: [u8; 7] = [msg[4], msg[5], msg[6], msg[7], msg[8], msg[9], msg[10]];
    assert(mb@ =~= msg@.subrange(4, 11));
    if let Some(bds) = try_decode_bds_20(&mb) {
        return Some(bds);
    }
    if let Some(bds) = try_decode_bds_40(&mb) {
        return Some(bds);
    }
    if let Some(bds) = try_decode_bds_50(&mb) {
        return Some(bds);
    }
    if let Some(bds) = try_decode_bds_60(&mb) {
        return Some(bds);
    }
    if let Some(bds) = try_decode_bds_30(&mb) {
        return Some(bds);
    }
    if let Some(bds) = try_decode_bds_10(&mb) {
        return Some(bds);
    }
    Some(BdsData::Unknown { bds_code: 0x00, data: mb })
}

} // verus!
