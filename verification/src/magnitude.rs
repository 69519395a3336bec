//! From raw I/Q samples to signal magnitude.
//!
//! A sample is a pair of unsigned bytes centred on 127. Its magnitude is
//! `360 * sqrt(i^2 + q^2)`, rounded to the nearest integer, where `i` and `q`
//! are the distances of the two bytes from the centre. All 129 x 129 values
//! are computed once and looked up afterwards.

use crate::math::{integer_sqrt, is_isqrt, isqrt, lemma_isqrt_monotonic};
use vstd::prelude::*;

verus! {

/// Side of the magnitude table: distances from the centre run from 0 to 128.
pub const LUT_SIDE: usize = 129;

/// Number of entries of the magnitude table.
pub const LUT_SIZE: usize = 129 * 129;

/// `360 * sqrt(i^2 + q^2)`, rounded to the nearest integer. Rounding
/// `sqrt(n)` to the nearest integer is halving `sqrt(4 n)` rounded down, plus
/// one; a tie cannot occur.
pub open spec fn spec_magnitude(i: int, q: int) -> int {
    (isqrt(4 * 360 * 360 * (i * i + q * q)) + 1) / 2
}

/// Distance of a raw sample byte from the centre 127, at most 128.
pub open spec fn spec_sample_offset(raw: u8) -> int {
    if raw >= 127 {
        raw - 127
    } else {
        127 - raw
    }
}

/// The magnitudes of the sample pairs of an interleaved I/Q buffer. A last
/// byte without a partner is ignored.
pub open spec fn spec_magnitude_vector(data: Seq<u8>) -> Seq<int> {
    Seq::new(
        data.len() / 2,
        |k: int| spec_magnitude(spec_sample_offset(data[2 * k]), spec_sample_offset(data[2 * k + 1])),
    )
}

/// A signed sample byte as the unsigned byte centred on 127 that stands for
/// the same level: `s + 128`.
pub open spec fn spec_signed_to_unsigned(s: i8) -> u8 {
    (s + 128) as u8
}

/// The magnitude is the same when I and Q change places.
pub proof fn lemma_magnitude_symmetric(i: int, q: int)
    ensures
        spec_magnitude(i, q) == spec_magnitude(q, i),
{
    assert(i * i + q * q == q * q + i * i);
}

proof fn lemma_sum_of_squares_bound(i: int, q: int)
    by (nonlinear_arith)
    requires
        0 <= i <= 128,
        0 <= q <= 128,
    ensures
        0 <= i * i + q * q <= 32768,
        0 <= 4 * 360 * 360 * (i * i + q * q) <= 16986931200,
{
}

/// Every magnitude of the table fits 16 bits.
pub proof fn lemma_magnitude_bound(i: int, q: int)
    requires
        0 <= i <= 128,
        0 <= q <= 128,
    ensures
        0 <= spec_magnitude(i, q) <= 65167,
{
    lemma_sum_of_squares_bound(i, q);
    let n = 4 * 360 * 360 * (i * i + q * q);
    assert(is_isqrt(16986931200, 130333)) by (nonlinear_arith);
    if n < 0 {
    } else {
        lemma_isqrt_exists(n);
        lemma_isqrt_monotonic(n, isqrt(n), 16986931200, 130333);
    }
}

proof fn lemma_isqrt_exists(n: int)
    requires
        0 <= n,
    ensures
        is_isqrt(n, isqrt(n)),
    decreases n,
{
    if n == 0 {
        assert(is_isqrt(0, 0));
    } else {
        lemma_isqrt_exists(n - 1);
        let r = isqrt(n - 1);
        if (r + 1) * (r + 1) <= n {
            assert(is_isqrt(n, r + 1)) by (nonlinear_arith)
                requires
                    r >= 0,
                    r * r <= n - 1 < (r + 1) * (r + 1),
                    (r + 1) * (r + 1) <= n,
            ;
        } else {
            assert(is_isqrt(n, r));
        }
    }
}

/// The table of all magnitudes, indexed by the two distances from the centre.
pub struct MagnitudeLut {
    table: Vec<u16>,
}

impl MagnitudeLut {
    /// Entry `i * 129 + q` of the table holds the magnitude of `(i, q)`.
    #[verifier::type_invariant]
    pub closed spec fn wf(&self) -> bool {
        &&& self.table@.len() == LUT_SIZE
        &&& forall|i: int, q: int|
            0 <= i <= 128 && 0 <= q <= 128 ==> #[trigger] self.table@[i * 129 + q] as int
                == spec_magnitude(i, q)
    }

    /// The table's entry for a sample whose bytes lie `i` and `q` from the
    /// centre.
    pub closed spec fn entry(&self, i: int, q: int) -> int {
        self.table@[i * 129 + q] as int
    }

    /// Computes the table.
    pub fn new() -> (lut: Self)
        ensures
            forall|i: int, q: int|
                0 <= i <= 128 && 0 <= q <= 128 ==> #[trigger] lut.entry(i, q) == spec_magnitude(
                    i,
                    q,
                ),
    {
        let mut table: Vec<u16> = Vec::with_capacity(LUT_SIZE);
        let mut i: u64 = 0;
        while i <= 128
            invariant
                i <= 129,
                table@.len() == i * 129,
                forall|a: int, b: int|
                    0 <= a < i && 0 <= b <= 128 ==> #[trigger] table@[a * 129 + b] as int
                        == spec_magnitude(a, b),
            decreases 129 - i,
        {
            let mut q: u64 = 0;
            while q <= 128
                invariant
                    i <= 128,
                    q <= 129,
                    table@.len() == i * 129 + q,
                    forall|a: int, b: int|
                        0 <= a < i && 0 <= b <= 128 ==> #[trigger] table@[a * 129 + b] as int
                            == spec_magnitude(a, b),
                    forall|b: int|
                        0 <= b < q ==> #[trigger] table@[i * 129 + b] as int == spec_magnitude(
                            i as int,
                            b,
                        ),
                decreases 129 - q,
            {
                proof {
                    lemma_sum_of_squares_bound(i as int, q as int);
                    lemma_magnitude_bound(i as int, q as int);
                }
                let root = integer_sqrt(4 * 360 * 360 * (i * i + q * q));
                let ghost before = table@;
                table.push(((root + 1) / 2) as u16);
                assert forall|a: int, b: int| 0 <= a < i && 0 <= b <= 128 implies #[trigger] table@[a
                    * 129 + b] as int == spec_magnitude(a, b) by {
                    assert(table@[a * 129 + b] == before[a * 129 + b]);
                }
                assert forall|b: int| 0 <= b < q + 1 implies #[trigger] table@[i * 129 + b] as int
                    == spec_magnitude(i as int, b) by {
                    if b < q {
                        assert(table@[i * 129 + b] == before[i * 129 + b]);
                    }
                }
                q += 1;
            }
            i += 1;
        }
        MagnitudeLut { table }
    }

    /// The magnitude of a sample whose bytes lie `i` and `q` from the centre.
    pub fn lookup(&self, i: u8, q: u8) -> (mag: u16)
        requires
            i <= 128,
            q <= 128,
        ensures
            mag as int == spec_magnitude(i as int, q as int),
            mag as int == self.entry(i as int, q as int),
    {
        proof {
            use_type_invariant(self);
        }
        self.table[i as usize * 129 + q as usize]
    }
}

impl Default for MagnitudeLut {
    /// Computes the table.
    fn default() -> (lut: Self)
        ensures
            forall|i: int, q: int|
                0 <= i <= 128 && 0 <= q <= 128 ==> #[trigger] lut.entry(i, q) == spec_magnitude(
                    i,
                    q,
                ),
    {
        MagnitudeLut::new()
    }
}

/// Distance of a raw sample byte from the centre 127.
pub fn sample_offset(raw: u8) -> (offset: u8)
    ensures
        offset as int == spec_sample_offset(raw),
        offset <= 128,
{
    if raw >= 127 {
        raw - 127
    } else {
        127 - raw
    }
}

/// Converts an interleaved I/Q buffer (I0, Q0, I1, Q1, ...) into one
/// magnitude per sample pair.
pub fn compute_magnitude_vector(data: &[u8], lut: &MagnitudeLut) -> (magnitude: Vec<u16>)
    ensures
        magnitude@.map_values(|m: u16| m as int) == spec_magnitude_vector(data@),
{
    let pairs: usize = data.len() / 2;
    let mut magnitude: Vec<u16> = Vec::with_capacity(pairs);
    let mut k: usize = 0;
    while k < pairs
        invariant
            pairs == data@.len() / 2,
            data@.len() <= usize::MAX,
            k <= pairs,
            magnitude@.len() == k,
            forall|n: int|
                0 <= n < k ==> #[trigger] magnitude@[n] as int == spec_magnitude_vector(data@)[n],
        decreases pairs - k,
    {
        let i = sample_offset(data[2 * k]);
        let q = sample_offset(data[2 * k + 1]);
        magnitude.push(lut.lookup(i, q));
        k += 1;
    }
    assert(magnitude@.map_values(|m: u16| m as int) =~= spec_magnitude_vector(data@));
    magnitude
}

/// Converts a buffer of signed samples, centred on 0, into the unsigned form
/// centred on 127 that the magnitude table expects.
pub fn signed_to_unsigned(raw: &[i8]) -> (data: Vec<u8>)
    ensures
        data@ == raw@.map_values(|s: i8| spec_signed_to_unsigned(s)),
{
    let mut data: Vec<u8> = Vec::with_capacity(raw.len());
    let mut k: usize = 0;
    while k < raw.len()
        invariant
            k <= raw@.len(),
            data@.len() == k,
            forall|n: int| 0 <= n < k ==> #[trigger] data@[n] == spec_signed_to_unsigned(raw@[n]),
        decreases raw@.len() - k,
    {
        data.push((raw[k] as i16 + 128) as u8);
        k += 1;
    }
    assert(data@ =~= raw@.map_values(|s: i8| spec_signed_to_unsigned(s)));
    data
}

} // verus!
