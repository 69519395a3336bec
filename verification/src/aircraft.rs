//! The aircraft tracker: one record per address, fed by decoded frames.
//!
//! Time is a count of nanoseconds on a clock of the caller's choice; the
//! tracker only compares times that the caller hands in.

use crate::bds::{BdsData, BdsView};
use crate::cpr::{
    solve_global, spec_is_latitude, spec_is_longitude, spec_solve, Angle, Ratio,
};
use crate::decoder::{ModesMessage, HEX_UPPER};
use std::collections::HashMap;
use vstd::prelude::*;
use vstd::std_specs::hash::*;
use vstd::std_specs::iter::IteratorSpec;

verus! {

broadcast use vstd::std_specs::hash::group_hash_axioms;

/// Nanoseconds in a second.
pub const NANOS_PER_SEC: u64 = 1_000_000_000;

/// How far apart in time the two fragments of a position pair may lie, in
/// seconds.
pub const CPR_PAIR_WINDOW_SECS: u64 = 10;

/// Number of messages from which on an aircraft counts as confirmed, unless
/// the store is told otherwise.
pub const DEFAULT_MIN_MESSAGES: u64 = 2;

/// A tracked aircraft.
#[derive(Debug, Clone)]
pub struct Aircraft {
    /// The 24-bit address.
    pub addr: u32,
    /// The address in upper-case hexadecimal, six digits for 24 bits.
    pub hex_addr: String,
    /// Callsign; empty until one is known.
    pub flight: String,
    /// Altitude in feet.
    pub altitude: i32,
    /// Ground speed in knots.
    pub speed: u16,
    /// Track in whole degrees.
    pub track: u16,
    /// Time of the first message.
    pub first_seen: u64,
    /// Time of the last message.
    pub seen: u64,
    /// Number of messages.
    pub messages: u64,
    /// Raw latitude of the last odd position fragment.
    pub odd_cprlat: u32,
    /// Raw longitude of the last odd position fragment.
    pub odd_cprlon: u32,
    /// Time of the last odd position fragment, if there was one.
    pub odd_cprtime: Option<u64>,
    /// Raw latitude of the last even position fragment.
    pub even_cprlat: u32,
    /// Raw longitude of the last even position fragment.
    pub even_cprlon: u32,
    /// Time of the last even position fragment, if there was one.
    pub even_cprtime: Option<u64>,
    /// Latitude in degrees; zero until a position is solved.
    pub lat: Angle,
    /// Longitude in degrees; zero until a position is solved.
    pub lon: Angle,
    /// Roll angle in steps of 45/256 degree.
    pub roll_angle: Option<i16>,
    /// True airspeed in knots.
    pub true_airspeed: Option<u16>,
    /// Indicated airspeed in knots.
    pub indicated_airspeed: Option<u16>,
    /// Mach number in thousandths.
    pub mach: Option<u16>,
    /// Magnetic heading in steps of 90/512 degree.
    pub magnetic_heading: Option<u16>,
    /// Barometric altitude rate in feet per minute.
    pub baro_altitude_rate: Option<i16>,
    /// Selected altitude in feet.
    pub selected_altitude: Option<u16>,
    /// Barometric setting in tenths of a millibar.
    pub baro_setting: Option<u16>,
    /// Squawk; 0 until one is seen.
    pub squawk: u16,
    /// Running mean of the signal level.
    pub signal_level: u16,
    /// Number of messages found on the second, shifted attempt.
    pub phase_corrections: u32,
}

/// What an `Aircraft` holds, with its strings as characters and its
/// position as fractions.
pub struct AircraftView {
    pub addr: u32,
    pub hex_addr: Seq<char>,
    pub flight: Seq<char>,
    pub altitude: i32,
    pub speed: u16,
    pub track: u16,
    pub first_seen: u64,
    pub seen: u64,
    pub messages: u64,
    pub odd_cprlat: u32,
    pub odd_cprlon: u32,
    pub odd_cprtime: Option<u64>,
    pub even_cprlat: u32,
    pub even_cprlon: u32,
    pub even_cprtime: Option<u64>,
    pub lat: Ratio,
    pub lon: Ratio,
    pub roll_angle: Option<i16>,
    pub true_airspeed: Option<u16>,
    pub indicated_airspeed: Option<u16>,
    pub mach: Option<u16>,
    pub magnetic_heading: Option<u16>,
    pub baro_altitude_rate: Option<i16>,
    pub selected_altitude: Option<u16>,
    pub baro_setting: Option<u16>,
    pub squawk: u16,
    pub signal_level: u16,
    pub phase_corrections: u32,
}

impl View for Aircraft {
    type V = AircraftView;

    open spec fn view(&self) -> AircraftView {
        AircraftView {
            addr: self.addr,
            hex_addr: self.hex_addr@,
            flight: self.flight@,
            altitude: self.altitude,
            speed: self.speed,
            track: self.track,
            first_seen: self.first_seen,
            seen: self.seen,
            messages: self.messages,
            odd_cprlat: self.odd_cprlat,
            odd_cprlon: self.odd_cprlon,
            odd_cprtime: self.odd_cprtime,
            even_cprlat: self.even_cprlat,
            even_cprlon: self.even_cprlon,
            even_cprtime: self.even_cprtime,
            lat: self.lat@,
            lon: self.lon@,
            roll_angle: self.roll_angle,
            true_airspeed: self.true_airspeed,
            indicated_airspeed: self.indicated_airspeed,
            mach: self.mach,
            magnetic_heading: self.magnetic_heading,
            baro_altitude_rate: self.baro_altitude_rate,
            selected_altitude: self.selected_altitude,
            baro_setting: self.baro_setting,
            squawk: self.squawk,
            signal_level: self.signal_level,
            phase_corrections: self.phase_corrections,
        }
    }
}

/// The hexadecimal digit of `addr` at the place of value `place`.
pub open spec fn spec_hex_digit(addr: u32, place: int) -> char {
    HEX_UPPER@[(addr as int / place) % 16]
}

/// The leading digits of an address that needs more than six: the eighth
/// and the seventh, or the seventh alone.
pub open spec fn spec_hex_lead(addr: u32) -> Seq<char> {
    if addr >= 0x10000000 {
        Seq::empty().push(spec_hex_digit(addr, 0x10000000)).push(spec_hex_digit(addr, 0x1000000))
    } else if addr >= 0x1000000 {
        Seq::empty().push(spec_hex_digit(addr, 0x1000000))
    } else {
        Seq::empty()
    }
}

/// An address in upper-case hexadecimal: six digits, and the seventh and
/// eighth only where the address needs them.
pub open spec fn spec_hex_address(addr: u32) -> Seq<char> {
    spec_hex_lead(addr).push(spec_hex_digit(addr, 0x100000)).push(
        spec_hex_digit(addr, 0x10000),
    ).push(spec_hex_digit(addr, 0x1000)).push(spec_hex_digit(addr, 0x100)).push(
        spec_hex_digit(addr, 0x10),
    ).push(spec_hex_digit(addr, 0x1))
}

/// The record of an aircraft of which nothing is known yet.
pub open spec fn spec_fresh(addr: u32, now: u64) -> AircraftView {
    AircraftView {
        addr,
        hex_addr: spec_hex_address(addr),
        flight: Seq::empty(),
        altitude: 0,
        speed: 0,
        track: 0,
        first_seen: now,
        seen: now,
        messages: 0,
        odd_cprlat: 0,
        odd_cprlon: 0,
        odd_cprtime: None,
        even_cprlat: 0,
        even_cprlon: 0,
        even_cprtime: None,
        lat: Ratio { num: 0, den: 1 },
        lon: Ratio { num: 0, den: 1 },
        roll_angle: None,
        true_airspeed: None,
        indicated_airspeed: None,
        mach: None,
        magnetic_heading: None,
        baro_altitude_rate: None,
        selected_altitude: None,
        baro_setting: None,
        squawk: 0,
        signal_level: 0,
        phase_corrections: 0,
    }
}

/// The running mean of the signal level after one more frame: the first
/// level as it is, then seven parts old to one part new. A frame without a
/// level changes nothing.
pub open spec fn spec_running_level(old_level: u16, level: u16) -> u16 {
    if level == 0 {
        old_level
    } else if old_level == 0 {
        level
    } else {
        ((old_level * 7 + level) / 8) as u16
    }
}

/// A count after one more, as far as the type counts.
pub open spec fn spec_count_up(count: int, max: int) -> int {
    if count < max {
        count + 1
    } else {
        count
    }
}

/// The bookkeeping that every frame does: time of the last message, number
/// of messages, signal level, number of phase corrections.
pub open spec fn spec_touch(a: AircraftView, mm: ModesMessage, now: u64) -> AircraftView {
    AircraftView {
        seen: now,
        messages: spec_count_up(a.messages as int, u64::MAX as int) as u64,
        signal_level: spec_running_level(a.signal_level, mm.signal_level),
        phase_corrections: if mm.phase_corrected {
            spec_count_up(a.phase_corrections as int, u32::MAX as int) as u32
        } else {
            a.phase_corrections
        },
        ..a
    }
}

/// A new value where there is one, else the old one.
pub open spec fn or_keep<T>(new: Option<T>, old: Option<T>) -> Option<T> {
    if new is Some {
        new
    } else {
        old
    }
}

/// A track in steps of 90/512 degree as whole degrees, rounded down.
pub open spec fn spec_track_degrees(steps: u16) -> u16 {
    (steps * 90 / 512) as u16
}

/// What a Comm-B register adds to a record. An identification gives the
/// callsign if none is known. The other registers give the values that
/// they hold.
pub open spec fn spec_apply_bds(a: AircraftView, bds: BdsView) -> AircraftView {
    match bds {
        BdsView::AircraftIdentification { callsign } => if a.flight.len() == 0 {
            AircraftView { flight: callsign, ..a }
        } else {
            a
        },
        BdsView::SelectedVerticalIntention { mcp_altitude, baro_setting, .. } => AircraftView {
            selected_altitude: or_keep(mcp_altitude, a.selected_altitude),
            baro_setting: or_keep(baro_setting, a.baro_setting),
            ..a
        },
        BdsView::TrackAndTurnReport { roll_angle, true_track, ground_speed, true_airspeed, .. } => {
            AircraftView {
                roll_angle: or_keep(roll_angle, a.roll_angle),
                speed: if ground_speed is Some {
                    ground_speed->0
                } else {
                    a.speed
                },
                true_airspeed: or_keep(true_airspeed, a.true_airspeed),
                track: if true_track is Some {
                    spec_track_degrees(true_track->0)
                } else {
                    a.track
                },
                ..a
            }
        },
        BdsView::HeadingAndSpeedReport {
            magnetic_heading,
            indicated_airspeed,
            mach,
            baro_altitude_rate,
            ..
        } => AircraftView {
            magnetic_heading: or_keep(magnetic_heading, a.magnetic_heading),
            indicated_airspeed: or_keep(indicated_airspeed, a.indicated_airspeed),
            mach: or_keep(mach, a.mach),
            baro_altitude_rate: or_keep(baro_altitude_rate, a.baro_altitude_rate),
            ..a
        },
        _ => a,
    }
}

/// What the MB field of a frame adds to a record, if the frame has one.
pub open spec fn spec_apply_comm_b(a: AircraftView, mm: ModesMessage) -> AircraftView {
    match mm.bds_data {
        Some(bds) => spec_apply_bds(a, bds@),
        None => a,
    }
}

/// The record with the position fragment of a frame staged: an odd fragment
/// where the format flag is set, an even one where it is clear.
pub open spec fn spec_stage_fragment(a: AircraftView, mm: ModesMessage, now: u64) -> AircraftView {
    if mm.fflag {
        AircraftView {
            odd_cprlat: mm.raw_latitude,
            odd_cprlon: mm.raw_longitude,
            odd_cprtime: Some(now),
            ..a
        }
    } else {
        AircraftView {
            even_cprlat: mm.raw_latitude,
            even_cprlon: mm.raw_longitude,
            even_cprtime: Some(now),
            ..a
        }
    }
}

/// A fragment of each parity has arrived, and the two lie at most 10
/// seconds apart.
pub open spec fn spec_pair_is_fresh(a: AircraftView) -> bool {
    &&& a.even_cprtime is Some
    &&& a.odd_cprtime is Some
    &&& a.even_cprtime->0 - a.odd_cprtime->0 <= CPR_PAIR_WINDOW_SECS * NANOS_PER_SEC
    &&& a.odd_cprtime->0 - a.even_cprtime->0 <= CPR_PAIR_WINDOW_SECS * NANOS_PER_SEC
}

/// The record with the position of its staged pair, if the pair is fresh
/// and has one; else the record as it is.
pub open spec fn spec_solve_pair(a: AircraftView) -> AircraftView {
    if !spec_pair_is_fresh(a) {
        a
    } else {
        match spec_solve(
            a.even_cprlat as int,
            a.even_cprlon as int,
            a.odd_cprlat as int,
            a.odd_cprlon as int,
            a.even_cprtime->0 > a.odd_cprtime->0,
        ) {
            Some((lat, lon)) => AircraftView { lat, lon, ..a },
            None => a,
        }
    }
}

/// What an extended squitter adds to a record: an identification its
/// callsign; an airborne position its altitude and its fragment, and with a
/// fresh pair the position; a velocity its ground speed and, as the track,
/// the whole degrees of its heading.
pub open spec fn spec_apply_squitter(a: AircraftView, mm: ModesMessage, now: u64) -> AircraftView {
    if 1 <= mm.me_type <= 4 {
        AircraftView { flight: mm.flight@, ..a }
    } else if 9 <= mm.me_type <= 18 {
        spec_solve_pair(
            spec_stage_fragment(AircraftView { altitude: mm.altitude, ..a }, mm, now),
        )
    } else if mm.me_type == 19 && (mm.me_sub == 1 || mm.me_sub == 2) {
        AircraftView { speed: mm.velocity, track: mm.heading / 16, ..a }
    } else {
        a
    }
}

/// The record after a frame: the bookkeeping, and what the frame's format
/// adds. Altitude replies (formats 0, 4, 16, 20) give the altitude, identity
/// replies (5, 21) a squawk that is not zero, Comm-B replies (20, 21) also
/// what their MB field holds.
pub open spec fn spec_update(before: AircraftView, mm: ModesMessage, now: u64) -> AircraftView {
    let a = spec_touch(before, mm, now);
    let df = mm.msg_type;
    if df == 0 || df == 4 || df == 16 || df == 20 {
        let with_altitude = AircraftView { altitude: mm.altitude, ..a };
        if df == 20 {
            spec_apply_comm_b(with_altitude, mm)
        } else {
            with_altitude
        }
    } else if df == 5 || df == 21 {
        let with_squawk = if mm.identity != 0 {
            AircraftView { squawk: mm.identity, ..a }
        } else {
            a
        };
        if df == 21 {
            spec_apply_comm_b(with_squawk, mm)
        } else {
            with_squawk
        }
    } else if df == 17 {
        spec_apply_squitter(a, mm, now)
    } else {
        a
    }
}

/// A frame leaves a record under its address, stamps it with the time of
/// the frame, and counts: the number of messages does not shrink, and is at
/// least 1 afterwards. The time of the first message stays.
pub proof fn lemma_update_keeps_identity(before: AircraftView, mm: ModesMessage, now: u64)
    ensures
        spec_update(before, mm, now).addr == before.addr,
        spec_update(before, mm, now).hex_addr == before.hex_addr,
        spec_update(before, mm, now).first_seen == before.first_seen,
        spec_update(before, mm, now).seen == now,
        spec_update(before, mm, now).messages >= before.messages,
        spec_update(before, mm, now).messages > 0,
        !spec_is_stale(spec_update(before, mm, now), now, 0),
{
    let a = spec_touch(before, mm, now);
    if mm.bds_data is Some {
        lemma_bds_keeps_identity(a, mm.bds_data->0@);
        lemma_bds_keeps_identity(AircraftView { altitude: mm.altitude, ..a }, mm.bds_data->0@);
        lemma_bds_keeps_identity(AircraftView { squawk: mm.identity, ..a }, mm.bds_data->0@);
    }
}

/// A frame counts once: the number of messages goes up by one, as far as
/// 64 bits count.
pub proof fn lemma_update_counts_up(before: AircraftView, mm: ModesMessage, now: u64)
    ensures
        spec_update(before, mm, now).messages == if before.messages < u64::MAX {
            (before.messages + 1) as u64
        } else {
            before.messages
        },
{
    let a = spec_touch(before, mm, now);
    if mm.bds_data is Some {
        lemma_bds_keeps_identity(a, mm.bds_data->0@);
        lemma_bds_keeps_identity(AircraftView { altitude: mm.altitude, ..a }, mm.bds_data->0@);
        lemma_bds_keeps_identity(AircraftView { squawk: mm.identity, ..a }, mm.bds_data->0@);
    }
}

proof fn lemma_bds_keeps_identity(a: AircraftView, bds: BdsView)
    ensures
        spec_apply_bds(a, bds).addr == a.addr,
        spec_apply_bds(a, bds).hex_addr == a.hex_addr,
        spec_apply_bds(a, bds).first_seen == a.first_seen,
        spec_apply_bds(a, bds).seen == a.seen,
        spec_apply_bds(a, bds).messages == a.messages,
        spec_apply_bds(a, bds).lat == a.lat,
        spec_apply_bds(a, bds).lon == a.lon,
        spec_apply_bds(a, bds).odd_cprtime == a.odd_cprtime,
        spec_apply_bds(a, bds).even_cprtime == a.even_cprtime,
{
}

/// Whether a frame is an airborne position: format 17, types 9 to 18.
pub open spec fn is_airborne_position(mm: ModesMessage) -> bool {
    mm.msg_type == 17 && 9 <= mm.me_type <= 18
}

/// Only an airborne position touches the staged fragments and the position
/// of a record. It stamps the fragment of its own parity and leaves the
/// time of the other. The position changes only if the staged pair is then
/// fresh and has a position.
pub proof fn lemma_position_changes_by_pairs_only(before: AircraftView, mm: ModesMessage, now: u64)
    ensures
        ({
            let after = spec_update(before, mm, now);
            let staged = spec_stage_fragment(before, mm, now);
            &&& !is_airborne_position(mm) ==> after.lat == before.lat && after.lon == before.lon
                && after.odd_cprtime == before.odd_cprtime && after.even_cprtime
                == before.even_cprtime
            &&& is_airborne_position(mm) && mm.fflag ==> after.odd_cprtime == Some(now)
                && after.even_cprtime == before.even_cprtime
            &&& is_airborne_position(mm) && !mm.fflag ==> after.even_cprtime == Some(now)
                && after.odd_cprtime == before.odd_cprtime
            &&& is_airborne_position(mm) ==> (after.lat != before.lat || after.lon != before.lon
                ==> spec_pair_is_fresh(staged) && spec_solve(
                staged.even_cprlat as int,
                staged.even_cprlon as int,
                staged.odd_cprlat as int,
                staged.odd_cprlon as int,
                staged.even_cprtime->0 > staged.odd_cprtime->0,
            ) == Some((after.lat, after.lon)))
        }),
{
    let a = spec_touch(before, mm, now);
    if mm.bds_data is Some {
        lemma_bds_keeps_identity(a, mm.bds_data->0@);
        lemma_bds_keeps_identity(AircraftView { altitude: mm.altitude, ..a }, mm.bds_data->0@);
        lemma_bds_keeps_identity(AircraftView { squawk: mm.identity, ..a }, mm.bds_data->0@);
    }
}

/// The record was last heard of more than `ttl_secs` seconds before `now`.
pub open spec fn spec_is_stale(a: AircraftView, now: u64, ttl_secs: u64) -> bool {
    now - a.seen > ttl_secs * NANOS_PER_SEC
}

/// The hexadecimal digit of `addr` at the place of value `place`.
fn hex_digit(addr: u32, place: u32) -> (digit: char)
    requires
        place > 0,
    ensures
        digit == spec_hex_digit(addr, place as int),
{
    HEX_UPPER[((addr / place) % 16) as usize]
}

/// Writes an address in upper-case hexadecimal.
pub fn hex_address(addr: u32) -> (text: String)
    ensures
        text@ == spec_hex_address(addr),
{
    let mut text = String::new();
    if addr >= 0x10000000 {
        text.push(hex_digit(addr, 0x10000000));
    }
    if addr >= 0x1000000 {
        text.push(hex_digit(addr, 0x1000000));
    }
    assert(text@ == spec_hex_lead(addr));
    text.push(hex_digit(addr, 0x100000));
    text.push(hex_digit(addr, 0x10000));
    text.push(hex_digit(addr, 0x1000));
    text.push(hex_digit(addr, 0x100));
    text.push(hex_digit(addr, 0x10));
    text.push(hex_digit(addr, 0x1));
    text
}

impl Aircraft {
    /// Latitude and longitude are fractions with positive denominators, the
    /// latitude above -90 and at most 90 degrees, the longitude above -180
    /// and at most 180 degrees.
    pub open spec fn position_wf(&self) -> bool {
        &&& self.lat.den > 0
        &&& self.lon.den > 0
        &&& spec_is_latitude(self.lat@)
        &&& spec_is_longitude(self.lon@)
    }

    /// The record of an aircraft first heard of at `now`.
    pub fn new(addr: u32, now: u64) -> (aircraft: Self)
        ensures
            aircraft@ == spec_fresh(addr, now),
            aircraft.position_wf(),
    {
        Aircraft {
            addr,
            hex_addr: hex_address(addr),
            flight: String::new(),
            altitude: 0,
            speed: 0,
            track: 0,
            first_seen: now,
            seen: now,
            messages: 0,
            odd_cprlat: 0,
            odd_cprlon: 0,
            odd_cprtime: None,
            even_cprlat: 0,
            even_cprlon: 0,
            even_cprtime: None,
            lat: Angle::zero(),
            lon: Angle::zero(),
            roll_angle: None,
            true_airspeed: None,
            indicated_airspeed: None,
            mach: None,
            magnetic_heading: None,
            baro_altitude_rate: None,
            selected_altitude: None,
            baro_setting: None,
            squawk: 0,
            signal_level: 0,
            phase_corrections: 0,
        }
    }

    /// Does the bookkeeping of one frame.
    fn touch(&mut self, mm: &ModesMessage, now: u64)
        ensures
            final(self)@ == spec_touch(old(self)@, *mm, now),
    {
        self.seen = now;
        if self.messages < u64::MAX {
            self.messages += 1;
        }
        if mm.signal_level > 0 {
            if self.signal_level == 0 {
                self.signal_level = mm.signal_level;
            } else {
                self.signal_level = ((self.signal_level as u32 * 7 + mm.signal_level as u32)
                    / 8) as u16;
            }
        }
        if mm.phase_corrected && self.phase_corrections < u32::MAX {
            self.phase_corrections += 1;
        }
    }

    /// Takes over what a Comm-B register holds.
    pub fn update_from_bds(&mut self, bds: &BdsData)
        ensures
            final(self)@ == spec_apply_bds(old(self)@, bds@),
    {
        match bds {
            BdsData::AircraftIdentification { callsign } => {
                if self.flight.as_str().unicode_len() == 0 {
                    self.flight = callsign.clone();
                }
            },
            BdsData::SelectedVerticalIntention { mcp_altitude, baro_setting, .. } => {
                if let Some(alt) = mcp_altitude {
                    self.selected_altitude = Some(*alt);
                }
                if let Some(baro) = baro_setting {
                    self.baro_setting = Some(*baro);
                }
            },
            BdsData::TrackAndTurnReport {
                roll_angle,
                true_track,
                ground_speed,
                true_airspeed,
                ..
            } => {
                if let Some(roll) = roll_angle {
                    self.roll_angle = Some(*roll);
                }
                if let Some(gs) = ground_speed {
                    self.speed = *gs;
                }
                if let Some(tas) = true_airspeed {
                    self.true_airspeed = Some(*tas);
                }
                if let Some(track) = true_track {
                    self.track = (*track as u32 * 90 / 512) as u16;
                }
            },
            BdsData::HeadingAndSpeedReport {
                magnetic_heading,
                indicated_airspeed,
                mach,
                baro_altitude_rate,
                ..
            } => {
                if let Some(hdg) = magnetic_heading {
                    self.magnetic_heading = Some(*hdg);
                }
                if let Some(ias) = indicated_airspeed {
                    self.indicated_airspeed = Some(*ias);
                }
                if let Some(m) = mach {
                    self.mach = Some(*m);
                }
                if let Some(rate) = baro_altitude_rate {
                    self.baro_altitude_rate = Some(*rate);
                }
            },
            _ => {},
        }
    }

    /// Whether a fragment of each parity has arrived, the two at most 10
    /// seconds apart.
    pub fn pair_is_fresh(&self) -> (fresh: bool)
        ensures
            fresh == spec_pair_is_fresh(self@),
    {
        match (self.even_cprtime, self.odd_cprtime) {
            (Some(even), Some(odd)) => {
                let apart: u64 = if even > odd {
                    even - odd
                } else {
                    odd - even
                };
                apart <= CPR_PAIR_WINDOW_SECS * NANOS_PER_SEC
            },
            _ => false,
        }
    }

    /// Solves the staged pair of position fragments, if it is fresh, and
    /// takes over the position, if there is one. A pair without a position
    /// stays staged.
    pub fn decode_cpr(&mut self)
        ensures
            final(self)@ == spec_solve_pair(old(self)@),
            old(self).position_wf() ==> final(self).position_wf(),
    {
        if !self.pair_is_fresh() {
            return ;
        }
        let even_newer: bool = match (self.even_cprtime, self.odd_cprtime) {
            (Some(even), Some(odd)) => even > odd,
            _ => false,
        };
        match solve_global(
            self.even_cprlat,
            self.even_cprlon,
            self.odd_cprlat,
            self.odd_cprlon,
            even_newer,
        ) {
            Some(position) => {
                self.lat = position.lat;
                self.lon = position.lon;
            },
            None => {},
        }
    }

    /// Takes over what an extended squitter holds.
    fn update_from_squitter(&mut self, mm: &ModesMessage, now: u64)
        ensures
            final(self)@ == spec_apply_squitter(old(self)@, *mm, now),
            old(self).position_wf() ==> final(self).position_wf(),
    {
        if 1 <= mm.me_type && mm.me_type <= 4 {
            self.flight = mm.flight.clone();
        } else if 9 <= mm.me_type && mm.me_type <= 18 {
            self.altitude = mm.altitude;
            if mm.fflag {
                self.odd_cprlat = mm.raw_latitude;
                self.odd_cprlon = mm.raw_longitude;
                self.odd_cprtime = Some(now);
            } else {
                self.even_cprlat = mm.raw_latitude;
                self.even_cprlon = mm.raw_longitude;
                self.even_cprtime = Some(now);
            }
            self.decode_cpr();
        } else if mm.me_type == 19 && (mm.me_sub == 1 || mm.me_sub == 2) {
            self.speed = mm.velocity;
            self.track = mm.heading / 16;
        }
    }

    /// Takes over what a frame holds, received at `now`.
    pub fn update(&mut self, mm: &ModesMessage, now: u64)
        ensures
            final(self)@ == spec_update(old(self)@, *mm, now),
            old(self).position_wf() ==> final(self).position_wf(),
    {
        self.touch(mm, now);
        let df: u8 = mm.msg_type;
        if df == 0 || df == 4 || df == 16 || df == 20 {
            self.altitude = mm.altitude;
            if df == 20 {
                if let Some(bds) = &mm.bds_data {
                    self.update_from_bds(bds);
                }
            }
        } else if df == 5 || df == 21 {
            if mm.identity != 0 {
                self.squawk = mm.identity;
            }
            if df == 21 {
                if let Some(bds) = &mm.bds_data {
                    self.update_from_bds(bds);
                }
            }
        } else if df == 17 {
            self.update_from_squitter(mm, now);
        }
    }

    /// Whether the aircraft was last heard of more than `ttl_secs` seconds
    /// before `now`.
    pub fn is_stale(&self, now: u64, ttl_secs: u64) -> (stale: bool)
        ensures
            stale == spec_is_stale(self@, now, ttl_secs),
    {
        if now <= self.seen {
            return false;
        }
        (now - self.seen) as u128 > ttl_secs as u128 * NANOS_PER_SEC as u128
    }
}

/// The tracked aircraft, by address.
pub struct AircraftStore {
    aircraft: HashMap<u32, Aircraft>,
    ttl: u64,
    min_messages: u64,
}

/// The addresses of some records.
pub open spec fn spec_addresses(records: Seq<&Aircraft>) -> Seq<u32> {
    records.map_values(|a: &Aircraft| a.addr)
}

/// Lists the keys of a map, each once.
fn collect_keys(map: &HashMap<u32, Aircraft>) -> (keys: Vec<u32>)
    ensures
        keys@.no_duplicates(),
        keys@.to_set() == map@.dom(),
{
    let mut keys: Vec<u32> = Vec::new();
    let all = map.keys();
    for key in iter: all
        invariant
            iter.seq() == spec_keys_iter(map).remaining(),
            keys@.len() == iter.index(),
            forall|i: int| 0 <= i < keys@.len() ==> keys@[i] == *iter.seq()[i],
    {
        keys.push(*key);
    }
    assert(keys@ =~= spec_keys_iter(map).remaining().unref());
    keys
}

impl AircraftStore {
    /// The records, by address.
    pub closed spec fn view(&self) -> Map<u32, AircraftView> {
        Map::new(|k: u32| self.aircraft@.contains_key(k), |k: u32| self.aircraft@[k]@)
    }

    /// After how many seconds without a message a record is dropped.
    pub closed spec fn spec_ttl(&self) -> u64 {
        self.ttl
    }

    /// From how many messages on an aircraft counts as confirmed.
    pub closed spec fn spec_min_messages(&self) -> u64 {
        self.min_messages
    }

    /// Every record is kept under its own address, has counted at least one
    /// message, and holds a position with positive denominators.
    pub closed spec fn wf(&self) -> bool {
        forall|k: u32| #[trigger]
            self.aircraft@.contains_key(k) ==> self.aircraft@[k].addr == k
                && self.aircraft@[k].messages > 0 && self.aircraft@[k].position_wf()
    }

    /// The addresses of the confirmed aircraft: those with at least the
    /// minimum number of messages.
    pub open spec fn confirmed(&self) -> Set<u32> {
        Set::new(|k: u32| self@.contains_key(k) && self@[k].messages >= self.spec_min_messages())
    }

    /// What `wf` says of a record of the store.
    pub proof fn lemma_wf_records(&self, k: u32)
        requires
            self.wf(),
            self@.contains_key(k),
        ensures
            self@[k].addr == k,
            self@[k].messages > 0,
            self@[k].lat.den > 0,
            self@[k].lon.den > 0,
            spec_is_latitude(self@[k].lat),
            spec_is_longitude(self@[k].lon),
    {
    }

    /// Every record of the store is kept under its own address and has
    /// counted at least one message.
    pub proof fn lemma_records_are_counted(&self)
        requires
            self.wf(),
        ensures
            forall|k: u32| #[trigger]
                self@.contains_key(k) ==> self@[k].addr == k && self@[k].messages >= 1,
    {
    }

    /// The store holds finitely many records.
    pub proof fn lemma_addresses_are_finite(&self)
        ensures
            self@.dom().finite(),
    {
        assert(self@.dom() =~= self.aircraft@.dom());
    }

    /// The addresses whose records were last heard of more than the time to
    /// live before `now`.
    pub open spec fn stale_addresses(&self, now: u64) -> Set<u32> {
        Set::new(|k: u32| self@.contains_key(k) && spec_is_stale(self@[k], now, self.spec_ttl()))
    }

    /// An empty store that drops a record after `ttl_secs` seconds without
    /// a message and takes an aircraft as confirmed from 2 messages on.
    pub fn new(ttl_secs: u64) -> (store: Self)
        ensures
            store.wf(),
            store@ == Map::<u32, AircraftView>::empty(),
            store.spec_ttl() == ttl_secs,
            store.spec_min_messages() == DEFAULT_MIN_MESSAGES,
    {
        Self::with_min_messages(ttl_secs, DEFAULT_MIN_MESSAGES)
    }

    /// An empty store that drops a record after `ttl_secs` seconds without
    /// a message and takes an aircraft as confirmed from `min_messages`
    /// messages on.
    pub fn with_min_messages(ttl_secs: u64, min_messages: u64) -> (store: Self)
        ensures
            store.wf(),
            store@ == Map::<u32, AircraftView>::empty(),
            store.spec_ttl() == ttl_secs,
            store.spec_min_messages() == min_messages,
    {
        let store = AircraftStore { aircraft: HashMap::new(), ttl: ttl_secs, min_messages };
        assert(store@ =~= Map::<u32, AircraftView>::empty());
        store
    }

    /// Records a frame received at `now`: the record of the frame's address,
    /// a new one if there is none, takes the frame over. The other records
    /// stay as they are. Returns the record.
    pub fn update_from_message(&mut self, mm: &ModesMessage, now: u64) -> (updated: Option<
        &Aircraft,
    >)
        requires
            old(self).wf(),
        ensures
            final(self).wf(),
            final(self).spec_ttl() == old(self).spec_ttl(),
            final(self).spec_min_messages() == old(self).spec_min_messages(),
            final(self)@ == old(self)@.insert(
                mm.spec_icao_address(),
                spec_update(
                    if old(self)@.contains_key(mm.spec_icao_address()) {
                        old(self)@[mm.spec_icao_address()]
                    } else {
                        spec_fresh(mm.spec_icao_address(), now)
                    },
                    *mm,
                    now,
                ),
            ),
            updated is Some,
            updated->0@ == final(self)@[mm.spec_icao_address()],
            updated->0.addr == mm.spec_icao_address(),
            updated->0.seen == now,
            updated->0.messages >= 1,
            old(self)@.contains_key(mm.spec_icao_address()) && old(self)@[mm.spec_icao_address()].messages
                < u64::MAX ==> updated->0.messages == old(self)@[mm.spec_icao_address()].messages
                + 1,
            !old(self)@.contains_key(mm.spec_icao_address()) ==> updated->0.messages == 1
                && updated->0.first_seen == now,
            forall|k: u32|
                k != mm.spec_icao_address() ==> (final(self)@.contains_key(k) <==> old(
                    self,
                )@.contains_key(k)),
            forall|k: u32|
                k != mm.spec_icao_address() && #[trigger] old(self)@.contains_key(k)
                    ==> final(self)@[k] == old(self)@[k],
            final(self)@.dom().finite(),
    {
        let addr = mm.icao_address();
        let mut aircraft = match self.aircraft.remove(&addr) {
            Some(known) => known,
            None => Aircraft::new(addr, now),
        };
        proof {
            lemma_update_keeps_identity(aircraft@, *mm, now);
            lemma_update_counts_up(aircraft@, *mm, now);
        }
        aircraft.update(mm, now);
        assert(aircraft.addr == addr);
        assert(aircraft.messages > 0);
        let _ = self.aircraft.insert(addr, aircraft);
        assert(self@ =~= old(self)@.insert(addr, aircraft@));
        proof {
            self.lemma_addresses_are_finite();
        }
        self.aircraft.get(&addr)
    }

    /// The record of an address, if there is one.
    pub fn get(&self, addr: u32) -> (found: Option<&Aircraft>)
        ensures
            found is Some <==> self@.contains_key(addr),
            found is Some ==> found->0@ == self@[addr],
    {
        self.aircraft.get(&addr)
    }

    /// The records that pass `confirmed_only`: all of them, or those of the
    /// confirmed aircraft.
    fn select(&self, confirmed_only: bool) -> (records: Vec<&Aircraft>)
        requires
            self.wf(),
        ensures
            spec_addresses(records@).no_duplicates(),
            spec_addresses(records@).to_set() == if confirmed_only {
                self.confirmed()
            } else {
                self@.dom()
            },
            forall|i: int|
                0 <= i < records@.len() ==> (#[trigger] records@[i])@ == self@[records@[i].addr],
    {
        let keys = collect_keys(&self.aircraft);
        let mut records: Vec<&Aircraft> = Vec::new();
        let mut i: usize = 0;
        while i < keys.len()
            invariant
                self.wf(),
                keys@.no_duplicates(),
                keys@.to_set() == self.aircraft@.dom(),
                i <= keys@.len(),
                spec_addresses(records@).no_duplicates(),
                forall|n: int|
                    0 <= n < records@.len() ==> (#[trigger] records@[n])@ == self@[records@[n].addr]
                        && self@.contains_key(records@[n].addr) && (confirmed_only
                        ==> records@[n].messages >= self.min_messages),
                forall|n: int|
                    0 <= n < records@.len() ==> exists|j: int|
                        0 <= j < i && keys@[j] == (#[trigger] records@[n]).addr,
                forall|j: int|
                    0 <= j < i && (!confirmed_only || self@[#[trigger] keys@[j]].messages
                        >= self.min_messages) ==> spec_addresses(records@).contains(keys@[j]),
            decreases keys@.len() - i,
        {
            let key: u32 = keys[i];
            assert(keys@.to_set().contains(key));
            match self.aircraft.get(&key) {
                Some(aircraft) => {
                    if !confirmed_only || aircraft.messages >= self.min_messages {
                        let ghost before = records@;
                        assert(!spec_addresses(before).contains(key)) by {
                            if spec_addresses(before).contains(key) {
                                let n = choose|n: int|
                                    0 <= n < before.len() && spec_addresses(before)[n] == key;
                                let j = choose|j: int| 0 <= j < i && keys@[j] == before[n].addr;
                                assert(keys@[j] == keys@[i as int]);
                            }
                        }
                        records.push(aircraft);
                        assert(spec_addresses(records@) =~= spec_addresses(before).push(key));
                        assert forall|j: int|
                            0 <= j < i + 1 && (!confirmed_only || self@[#[trigger] keys@[j]].messages
                                >= self.min_messages) implies spec_addresses(records@).contains(
                            keys@[j],
                        ) by {
                            if j < i {
                                let n = choose|n: int|
                                    0 <= n < before.len() && spec_addresses(before)[n] == keys@[j];
                                assert(spec_addresses(records@)[n] == keys@[j]);
                            } else {
                                assert(spec_addresses(records@)[before.len() as int] == key);
                            }
                        }
                    }
                },
                None => {},
            }
            i += 1;
        }
        proof {
            let listed = spec_addresses(records@).to_set();
            let wanted = if confirmed_only {
                self.confirmed()
            } else {
                self@.dom()
            };
            assert forall|k: u32| listed.contains(k) == wanted.contains(k) by {
                if listed.contains(k) {
                    let n = choose|n: int|
                        0 <= n < records@.len() && spec_addresses(records@)[n] == k;
                    assert(records@[n].addr == k);
                }
                if wanted.contains(k) {
                    assert(keys@.to_set().contains(k));
                    let j = choose|j: int| 0 <= j < keys@.len() && keys@[j] == k;
                    assert(spec_addresses(records@).contains(keys@[j]));
                }
            }
            assert(listed =~= wanted);
        }
        records
    }

    /// The records of the confirmed aircraft, each once, in no particular
    /// order.
    pub fn all(&self) -> (records: Vec<&Aircraft>)
        requires
            self.wf(),
        ensures
            spec_addresses(records@).no_duplicates(),
            spec_addresses(records@).to_set() == self.confirmed(),
            forall|i: int|
                0 <= i < records@.len() ==> (#[trigger] records@[i])@ == self@[records@[i].addr],
    {
        self.select(true)
    }

    /// All records, each once, in no particular order.
    pub fn all_unfiltered(&self) -> (records: Vec<&Aircraft>)
        requires
            self.wf(),
        ensures
            spec_addresses(records@).no_duplicates(),
            spec_addresses(records@).to_set() == self@.dom(),
            forall|i: int|
                0 <= i < records@.len() ==> (#[trigger] records@[i])@ == self@[records@[i].addr],
    {
        self.select(false)
    }

    /// Drops every record that was last heard of more than the time to live
    /// before `now`. The others stay as they are.
    pub fn remove_stale(&mut self, now: u64)
        requires
            old(self).wf(),
        ensures
            final(self).wf(),
            final(self).spec_ttl() == old(self).spec_ttl(),
            final(self).spec_min_messages() == old(self).spec_min_messages(),
            forall|k: u32|
                final(self)@.contains_key(k) <==> old(self)@.contains_key(k) && !spec_is_stale(
                    old(self)@[k],
                    now,
                    old(self).spec_ttl(),
                ),
            forall|k: u32| #[trigger]
                final(self)@.contains_key(k) ==> final(self)@[k] == old(self)@[k] && !spec_is_stale(
                    final(self)@[k],
                    now,
                    final(self).spec_ttl(),
                ),
            final(self)@.dom() == old(self)@.dom().difference(old(self).stale_addresses(now)),
            final(self)@.dom().finite(),
            final(self)@.dom().len() == old(self)@.dom().len() - old(self).stale_addresses(
                now,
            ).len(),
    {
        let keys = collect_keys(&self.aircraft);
        let ghost before = self.aircraft@;
        let mut i: usize = 0;
        while i < keys.len()
            invariant
                keys@.no_duplicates(),
                keys@.to_set() == before.dom(),
                before == old(self).aircraft@,
                self.ttl == old(self).ttl,
                self.min_messages == old(self).min_messages,
                i <= keys@.len(),
                forall|k: u32| #[trigger]
                    self.aircraft@.contains_key(k) ==> before.contains_key(k)
                        && self.aircraft@[k] == before[k],
                forall|k: u32|
                    #[trigger] before.contains_key(k) ==> (self.aircraft@.contains_key(k) <==> !(
                    exists|j: int|
                        0 <= j < i && keys@[j] == k && spec_is_stale(before[k]@, now, self.ttl))),
            decreases keys@.len() - i,
        {
            let key: u32 = keys[i];
            assert(keys@.to_set().contains(key));
            let stale: bool = match self.aircraft.get(&key) {
                Some(aircraft) => aircraft.is_stale(now, self.ttl),
                None => false,
            };
            let ghost current = self.aircraft@;
            if stale {
                let _ = self.aircraft.remove(&key);
            }
            assert forall|k: u32| #[trigger] before.contains_key(k) implies (
            self.aircraft@.contains_key(k) <==> !(exists|j: int|
                0 <= j < i + 1 && keys@[j] == k && spec_is_stale(before[k]@, now, self.ttl))) by {
                if k == key {
                    if !stale {
                        if current.contains_key(k) {
                            assert(!spec_is_stale(before[k]@, now, self.ttl));
                        } else {
                            let j = choose|j: int|
                                0 <= j < i && keys@[j] == k && spec_is_stale(
                                    before[k]@,
                                    now,
                                    self.ttl,
                                );
                            assert(0 <= j < i + 1);
                        }
                    } else {
                        assert(keys@[i as int] == k);
                    }
                } else {
                    if current.contains_key(k) {
                    } else {
                        let j = choose|j: int|
                            0 <= j < i && keys@[j] == k && spec_is_stale(before[k]@, now, self.ttl);
                        assert(0 <= j < i + 1);
                    }
                }
            }
            i += 1;
        }
        proof {
            assert forall|k: u32|
                self@.contains_key(k) <==> old(self)@.contains_key(k) && !spec_is_stale(
                    old(self)@[k],
                    now,
                    old(self).spec_ttl(),
                ) by {
                if before.contains_key(k) {
                    assert(keys@.to_set().contains(k));
                    let j = choose|j: int| 0 <= j < keys@.len() && keys@[j] == k;
                    if spec_is_stale(before[k]@, now, self.ttl) {
                        assert(0 <= j < i && keys@[j] == k);
                        assert(!self.aircraft@.contains_key(k));
                    } else {
                        assert(self.aircraft@.contains_key(k));
                    }
                    assert(old(self)@[k] == before[k]@);
                } else {
                    assert(!self.aircraft@.contains_key(k));
                    assert(!old(self)@.contains_key(k));
                }
            }
            let all = old(self)@.dom();
            let stale = old(self).stale_addresses(now);
            let kept = self@.dom();
            old(self).lemma_addresses_are_finite();
            self.lemma_addresses_are_finite();
            assert(kept =~= all.difference(stale));
            assert(stale.subset_of(all));
            vstd::set_lib::lemma_len_subset(stale, all);
            vstd::set_lib::lemma_set_disjoint_lens(kept, stale);
            assert(kept.disjoint(stale));
            assert(kept + stale =~= all);
        }
    }

    /// Number of confirmed aircraft.
    pub fn len(&self) -> (count: usize)
        requires
            self.wf(),
        ensures
            count == self.confirmed().len(),
    {
        let records = self.all();
        proof {
            spec_addresses(records@).unique_seq_to_set();
        }
        records.len()
    }

    /// Number of records, confirmed or not.
    pub fn len_total(&self) -> (count: usize)
        ensures
            count == self@.dom().len(),
    {
        assert(self@.dom() =~= self.aircraft@.dom());
        self.aircraft.len()
    }

    /// Whether no aircraft is confirmed.
    pub fn is_empty(&self) -> (empty: bool)
        requires
            self.wf(),
        ensures
            empty == (self.confirmed().len() == 0),
    {
        self.len() == 0
    }

    /// The time to live, in seconds.
    pub fn ttl_secs(&self) -> (ttl: u64)
        ensures
            ttl == self.spec_ttl(),
    {
        self.ttl
    }

    /// From how many messages on an aircraft counts as confirmed.
    pub fn min_messages(&self) -> (count: u64)
        ensures
            count == self.spec_min_messages(),
    {
        self.min_messages
    }
}

} // verus!
