//! Compact position reporting: from a pair of position fragments to one
//! position.
//!
//! An airborne position is sent alternately in two encodings, even and odd,
//! of 17 bits per coordinate. One fragment fixes the position within a
//! zone; a pair of one even and one odd fragment fixes the zone as well.
//! All angles are kept as exact fractions of a degree.

use vstd::prelude::*;

verus! {

/// Number of values of a raw coordinate: 2^17.
pub const CPR_SCALE: i64 = 131072;

/// Number of latitude zones of the even encoding.
pub const EVEN_ZONES: i64 = 60;

/// Number of latitude zones of the odd encoding.
pub const ODD_ZONES: i64 = 59;

/// Number of latitudes at which the number of longitude zones changes.
pub const NL_STEPS: usize = 58;

/// The latitudes at which the number of longitude zones drops by one, in
/// units of 10^-8 degree, ascending: from 59 zones below 10.4704713 degrees
/// to 1 zone from 87 degrees on.
pub const NL_THRESHOLDS: [u64; 58] = [
    1047047130, 1482817437, 1818626357, 2102939493, 2354504487, 2582924707,
    2793898710, 2991135686, 3177209708, 3353993436, 3522899598, 3685025108,
    3841241892, 3992256684, 4138651832, 4280914012, 4419454951, 4554626723,
    4686733252, 4816039128, 4942776439, 5067150166, 5189342469, 5309516153,
    5427817472, 5544378444, 5659318756, 5772747354, 5884763776, 5995459277,
    6104917774, 6213216659, 6320427479, 6426616523, 6531845310, 6636171008,
    6739646774, 6842322022, 6944242631, 7045451075, 7145986473, 7245884545,
    7345177442, 7443893416, 7542056257, 7639684391, 7736789461, 7833374083,
    7929428225, 8024923213, 8119801349, 8213956981, 8307199445, 8399173563,
    8489166191, 8575541621, 8653536998, 8700000000,
];

/// An angle in degrees as the exact fraction `num / den`.
#[derive(Debug, Clone, Copy, PartialEq, Eq)]
pub struct Angle {
    pub num: i64,
    pub den: i64,
}

/// A fraction.
pub struct Ratio {
    pub num: int,
    pub den: int,
}

impl View for Angle {
    type V = Ratio;

    open spec fn view(&self) -> Ratio {
        Ratio { num: self.num as int, den: self.den as int }
    }
}

/// A position in degrees.
#[derive(Debug, Clone, Copy, PartialEq, Eq)]
pub struct Position {
    pub lat: Angle,
    pub lon: Angle,
}

/// The absolute value.
pub open spec fn spec_abs(x: int) -> int {
    if x < 0 {
        -x
    } else {
        x
    }
}

/// The latitude, to either side of the equator, is at least threshold `k`.
pub open spec fn reaches(lat: Ratio, k: int) -> bool {
    spec_abs(lat.num) * 100_000_000 >= NL_THRESHOLDS@[k] * lat.den
}

/// How many of the first `n` thresholds the latitude reaches.
pub open spec fn thresholds_reached(lat: Ratio, n: int) -> int
    decreases n,
{
    if n <= 0 {
        0
    } else {
        thresholds_reached(lat, n - 1) + if reaches(lat, n - 1) {
            1int
        } else {
            0int
        }
    }
}

/// The number of longitude zones at a latitude: 59 at the equator, one less
/// for every threshold that the latitude reaches, 1 at the poles.
pub open spec fn spec_cpr_nl(lat: Ratio) -> int {
    59 - thresholds_reached(lat, 58)
}

/// The number of longitude zones that an encoding uses at a latitude: one
/// less for the odd encoding, and at least 1.
pub open spec fn spec_cpr_n(lat: Ratio, is_odd: bool) -> int {
    let nl = spec_cpr_nl(lat) - if is_odd {
        1int
    } else {
        0int
    };
    if nl < 1 {
        1
    } else {
        nl
    }
}

/// The latitude zone index of a pair of raw latitudes:
/// `floor((59 even - 60 odd) / 2^17 + 1/2)`.
pub open spec fn spec_zone_index(even_lat: int, odd_lat: int) -> int {
    (59 * even_lat - 60 * odd_lat + 65536) / 131072
}

/// An angle of `360 / zones * (index mod zones + raw / 2^17)` degrees.
pub open spec fn spec_zone_angle(zones: int, index: int, raw: int) -> Ratio {
    Ratio { num: 360 * ((index % zones) * 131072 + raw), den: zones * 131072 }
}

/// A latitude from 270 degrees on is taken as the southern latitude 360
/// degrees below it.
pub open spec fn spec_south(lat: Ratio) -> Ratio {
    if lat.num >= 270 * lat.den {
        Ratio { num: lat.num - 360 * lat.den, den: lat.den }
    } else {
        lat
    }
}

/// A longitude above 180 degrees is taken as the western longitude 360
/// degrees below it.
pub open spec fn spec_west(lon: Ratio) -> Ratio {
    if lon.num > 180 * lon.den {
        Ratio { num: lon.num - 360 * lon.den, den: lon.den }
    } else {
        lon
    }
}

/// The latitude that the even fragment of a pair stands for.
pub open spec fn spec_even_latitude(even_lat: int, odd_lat: int) -> Ratio {
    spec_south(spec_zone_angle(60, spec_zone_index(even_lat, odd_lat), even_lat))
}

/// The latitude that the odd fragment of a pair stands for.
pub open spec fn spec_odd_latitude(even_lat: int, odd_lat: int) -> Ratio {
    spec_south(spec_zone_angle(59, spec_zone_index(even_lat, odd_lat), odd_lat))
}

/// The longitude zone index of a pair of raw longitudes at a latitude with
/// `nl` longitude zones: `floor((even (nl - 1) - odd nl) / 2^17 + 1/2)`.
pub open spec fn spec_lon_index(even_lon: int, odd_lon: int, nl: int) -> int {
    (even_lon * (nl - 1) - odd_lon * nl + 65536) / 131072
}

/// A raw coordinate has 17 bits.
pub open spec fn spec_is_raw(value: int) -> bool {
    0 <= value < 131072
}

/// A latitude lies above -90 degrees and at most at 90 degrees.
pub open spec fn spec_is_latitude(lat: Ratio) -> bool {
    -90 * lat.den < lat.num <= 90 * lat.den
}

/// A longitude lies above -180 degrees and at most at 180 degrees.
pub open spec fn spec_is_longitude(lon: Ratio) -> bool {
    -180 * lon.den < lon.num <= 180 * lon.den
}

/// The position of a pair of fragments, of which the even one is the newer
/// or not. There is none when a raw coordinate has more than 17 bits, when
/// the two latitudes lie in bands with different numbers of longitude
/// zones, or when the latitude of the newer fragment is no latitude on the
/// globe. Otherwise latitude and longitude are those of the newer fragment.
pub open spec fn spec_solve(
    even_lat: int,
    even_lon: int,
    odd_lat: int,
    odd_lon: int,
    even_newer: bool,
) -> Option<(Ratio, Ratio)> {
    let rlat_even = spec_even_latitude(even_lat, odd_lat);
    let rlat_odd = spec_odd_latitude(even_lat, odd_lat);
    let lat = if even_newer {
        rlat_even
    } else {
        rlat_odd
    };
    if !spec_is_raw(even_lat) || !spec_is_raw(even_lon) || !spec_is_raw(odd_lat) || !spec_is_raw(
        odd_lon,
    ) {
        None
    } else if spec_cpr_nl(rlat_even) != spec_cpr_nl(rlat_odd) {
        None
    } else if !spec_is_latitude(lat) {
        None
    } else {
        let lon_raw = if even_newer {
            even_lon
        } else {
            odd_lon
        };
        let ni = spec_cpr_n(lat, !even_newer);
        let m = spec_lon_index(even_lon, odd_lon, spec_cpr_nl(lat));
        Some((lat, spec_west(spec_zone_angle(ni, m, lon_raw))))
    }
}

proof fn lemma_reaches_monotonic(a: Ratio, b: Ratio, k: int)
    by (nonlinear_arith)
    requires
        a.den > 0,
        b.den > 0,
        0 <= k < 58,
        spec_abs(a.num) * b.den <= spec_abs(b.num) * a.den,
        spec_abs(a.num) * 100_000_000 >= NL_THRESHOLDS@[k] * a.den,
        NL_THRESHOLDS@[k] >= 0,
    ensures
        spec_abs(b.num) * 100_000_000 >= NL_THRESHOLDS@[k] * b.den,
{
}

proof fn lemma_thresholds_reached_monotonic(a: Ratio, b: Ratio, n: int)
    requires
        a.den > 0,
        b.den > 0,
        0 <= n <= 58,
        spec_abs(a.num) * b.den <= spec_abs(b.num) * a.den,
    ensures
        thresholds_reached(a, n) <= thresholds_reached(b, n),
    decreases n,
{
    if n > 0 {
        lemma_thresholds_reached_monotonic(a, b, n - 1);
        if reaches(a, n - 1) {
            lemma_reaches_monotonic(a, b, n - 1);
        }
    }
}

/// The number of longitude zones does not grow with the distance from the
/// equator: if `|a| <= |b|` then `NL(a) >= NL(b)`.
pub proof fn lemma_nl_monotonic(a: Ratio, b: Ratio)
    requires
        a.den > 0,
        b.den > 0,
        spec_abs(a.num) * b.den <= spec_abs(b.num) * a.den,
    ensures
        spec_cpr_nl(a) >= spec_cpr_nl(b),
{
    lemma_thresholds_reached_monotonic(a, b, 58);
}

impl Angle {
    /// The angle zero.
    pub fn zero() -> (angle: Self)
        ensures
            angle@ == (Ratio { num: 0, den: 1 }),
    {
        Angle { num: 0, den: 1 }
    }

    /// An angle of whole degrees.
    pub fn from_degrees(degrees: i32) -> (angle: Self)
        ensures
            angle@ == (Ratio { num: degrees as int, den: 1 }),
    {
        Angle { num: degrees as i64, den: 1 }
    }

    /// Whether the angle is zero.
    pub fn is_zero(&self) -> (zero: bool)
        ensures
            zero == (self.num == 0),
    {
        self.num == 0
    }
}

/// The residue of `a` modulo `b` that is not negative.
pub fn cpr_mod(a: i32, b: i32) -> (residue: i32)
    requires
        b > 0,
    ensures
        0 <= residue < b,
        residue as int == a as int % b as int,
{
    let r: i64 = floor_mod(a as i64, b as i64);
    r as i32
}

/// `a` divided by `b`, rounded down.
fn floor_div(a: i64, b: i64) -> (quotient: i64)
    requires
        b > 0,
        -0x4000_0000_0000_0000 < a < 0x4000_0000_0000_0000,
        b < 0x4000_0000_0000_0000,
    ensures
        quotient as int == a as int / b as int,
{
    if a >= 0 {
        a / b
    } else {
        let up: i64 = (-a + b - 1) / b;
        proof {
            let ai = a as int;
            let bi = b as int;
            assert((-ai + bi - 1) / bi == -(ai / bi)) by (nonlinear_arith)
                requires
                    bi > 0,
                    ai < 0,
            ;
        }
        -up
    }
}

/// The residue of `a` modulo `b` that is not negative.
fn floor_mod(a: i64, b: i64) -> (residue: i64)
    requires
        b > 0,
        -0x4000_0000_0000_0000 < a < 0x4000_0000_0000_0000,
        b < 0x8000_0000,
    ensures
        0 <= residue < b,
        residue as int == a as int % b as int,
{
    let q = floor_div(a, b);
    proof {
        let ai = a as int;
        let bi = b as int;
        assert(ai == bi * (ai / bi) + ai % bi && 0 <= ai % bi < bi) by (nonlinear_arith)
            requires
                bi > 0,
        ;
    }
    a - b * q
}

/// The number of longitude zones at a latitude.
pub fn cpr_nl(lat: Angle) -> (nl: i32)
    requires
        lat.den > 0,
    ensures
        nl as int == spec_cpr_nl(lat@),
        1 <= nl <= 59,
{
    let wide: i128 = lat.num as i128;
    let magnitude: i128 = if wide < 0 {
        -wide
    } else {
        wide
    };
    let scaled: i128 = magnitude * 100_000_000;
    let mut reached: i32 = 0;
    let mut k: usize = 0;
    while k < NL_STEPS
        invariant
            k <= 58,
            lat.den > 0,
            scaled == spec_abs(lat.num as int) * 100_000_000,
            reached as int == thresholds_reached(lat@, k as int),
            0 <= reached <= k,
        decreases 58 - k,
    {
        let threshold: u64 = NL_THRESHOLDS[k];
        assert(threshold <= 8700000000);
        assert(threshold as int * lat.den as int <= 8700000000 * 0x7fff_ffff_ffff_ffff)
            by (nonlinear_arith)
            requires
                0 <= threshold <= 8700000000,
                0 < lat.den <= 0x7fff_ffff_ffff_ffff,
        ;
        if scaled >= threshold as i128 * lat.den as i128 {
            reached += 1;
        }
        k += 1;
    }
    59 - reached
}

/// The number of longitude zones that an encoding uses at a latitude.
pub fn cpr_n(lat: Angle, is_odd: bool) -> (n: i32)
    requires
        lat.den > 0,
    ensures
        n as int == spec_cpr_n(lat@, is_odd),
        1 <= n <= 59,
{
    let nl: i32 = cpr_nl(lat) - if is_odd {
        1
    } else {
        0
    };
    if nl < 1 {
        1
    } else {
        nl
    }
}

/// The width of a longitude zone that an encoding uses at a latitude:
/// `360 / n` degrees.
pub fn cpr_dlon(lat: Angle, is_odd: bool) -> (width: Angle)
    requires
        lat.den > 0,
    ensures
        width@ == (Ratio { num: 360, den: spec_cpr_n(lat@, is_odd) }),
{
    Angle { num: 360, den: cpr_n(lat, is_odd) as i64 }
}

/// An angle of `360 / zones * (index mod zones + raw / 2^17)` degrees.
fn zone_angle(zones: i64, index: i64, raw: u32) -> (angle: Angle)
    requires
        1 <= zones <= 60,
        -0x1_0000_0000_0000 < index < 0x1_0000_0000_0000,
    ensures
        angle@ == spec_zone_angle(zones as int, index as int, raw as int),
        angle.den > 0,
        0 <= angle.num < 360 * (60 * 131072 + 0x1_0000_0000),
        raw < 131072 ==> angle.num < 360 * angle.den,
{
    let residue: i64 = floor_mod(index, zones);
    Angle { num: 360 * (residue * CPR_SCALE + raw as i64), den: zones * CPR_SCALE }
}

/// Takes a latitude from 270 degrees on as a southern latitude.
fn south(lat: Angle) -> (wrapped: Angle)
    requires
        0 < lat.den <= 60 * 131072,
        0 <= lat.num < 360 * (60 * 131072 + 0x1_0000_0000),
    ensures
        wrapped@ == spec_south(lat@),
        wrapped.den == lat.den,
        lat.num < 360 * lat.den ==> -90 * wrapped.den <= wrapped.num < 270 * wrapped.den,
{
    if lat.num >= 270 * lat.den {
        Angle { num: lat.num - 360 * lat.den, den: lat.den }
    } else {
        lat
    }
}

/// Solves a pair of one even and one odd position fragment for the position
/// of the newer one. There is no position when a raw coordinate has more
/// than 17 bits, when the latitudes of the two fragments lie in bands with
/// different numbers of longitude zones, or when the latitude found lies
/// outside -90 to 90 degrees.
pub fn solve_global(
    even_lat: u32,
    even_lon: u32,
    odd_lat: u32,
    odd_lon: u32,
    even_newer: bool,
) -> (position: Option<Position>)
    ensures
        match position {
            Some(p) => spec_solve(
                even_lat as int,
                even_lon as int,
                odd_lat as int,
                odd_lon as int,
                even_newer,
            ) == Some((p.lat@, p.lon@)),
            None => spec_solve(
                even_lat as int,
                even_lon as int,
                odd_lat as int,
                odd_lon as int,
                even_newer,
            ) is None,
        },
        position is Some ==> spec_cpr_nl(spec_even_latitude(even_lat as int, odd_lat as int))
            == spec_cpr_nl(spec_odd_latitude(even_lat as int, odd_lat as int)),
        position is Some ==> position->0.lat.den > 0 && position->0.lon.den > 0,
        position is Some ==> spec_is_latitude(position->0.lat@),
        position is Some ==> spec_is_longitude(position->0.lon@),
{
    let limit: u32 = CPR_SCALE as u32;
    if even_lat >= limit || even_lon >= limit || odd_lat >= limit || odd_lon >= limit {
        return None;
    }
    let j: i64 = floor_div(59 * (even_lat as i64) - 60 * (odd_lat as i64) + 65536, CPR_SCALE);
    let rlat_even = south(zone_angle(EVEN_ZONES, j, even_lat));
    let rlat_odd = south(zone_angle(ODD_ZONES, j, odd_lat));
    let nl_even = cpr_nl(rlat_even);
    let nl_odd = cpr_nl(rlat_odd);
    if nl_even != nl_odd {
        return None;
    }
    let lat = if even_newer {
        rlat_even
    } else {
        rlat_odd
    };
    if lat.num <= -90 * lat.den || lat.num > 90 * lat.den {
        return None;
    }
    let lon_raw: u32 = if even_newer {
        even_lon
    } else {
        odd_lon
    };
    let nl: i64 = nl_even as i64;
    let ni: i64 = cpr_n(lat, !even_newer) as i64;
    assert((even_lon as int) * (nl - 1) <= 0xffff_ffff * 58 && (odd_lon as int) * nl
        <= 0xffff_ffff * 59 && (even_lon as int) * (nl - 1) >= 0 && (odd_lon as int) * nl >= 0)
        by (nonlinear_arith)
        requires
            1 <= nl <= 59,
            0 <= even_lon <= 0xffff_ffff,
            0 <= odd_lon <= 0xffff_ffff,
    ;
    let m: i64 = floor_div(
        (even_lon as i64) * (nl - 1) - (odd_lon as i64) * nl + 65536,
        CPR_SCALE,
    );
    let lon = zone_angle(ni, m, lon_raw);
    let lon = if lon.num > 180 * lon.den {
        Angle { num: lon.num - 360 * lon.den, den: lon.den }
    } else {
        lon
    };
    Some(Position { lat, lon })
}

} // verus!
