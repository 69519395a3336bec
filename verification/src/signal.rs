//! Noise floor tracking and the signal-to-noise rules of the demodulator.
//!
//! Decibel thresholds are decided in exact integer arithmetic: a ratio
//! `s / n` of amplitudes is at least `d` dB when `(s / n)^20 >= 10^d`, which
//! for the thresholds used here is a comparison of integer powers.

use std::collections::VecDeque;
use vstd::prelude::*;
use vstd::relations::{sorted_by, total_ordering};
use vstd::seq_lib::{lemma_sorted_unique, to_multiset_len};

verus! {

/// Largest number of noise estimates that are averaged.
pub const NOISE_FLOOR_SAMPLES: usize = 256;

/// Noise floor assumed before the first estimate.
pub const INITIAL_NOISE_FLOOR: u16 = 100;

/// Shortest magnitude window from which a noise estimate is taken.
pub const MIN_NOISE_WINDOW: usize = 100;

/// Every how many samples of a window one is taken for the noise estimate.
pub const NOISE_SAMPLE_STEP: usize = 16;

/// Number of leading bits that the ambiguity check looks at.
pub const AMBIGUITY_BITS: usize = 56;

/// The order of magnitudes.
pub open spec fn magnitude_leq() -> spec_fn(u16, u16) -> bool {
    |a: u16, b: u16| a <= b
}

/// Every sixteenth sample of a window, starting with the first.
pub open spec fn spec_every_16th(magnitude: Seq<u16>) -> Seq<u16> {
    Seq::new(((magnitude.len() + 15) / 16) as nat, |k: int| magnitude[16 * k])
}

/// The lower quartile of some samples: the element at a quarter of the
/// length once they are sorted.
pub open spec fn spec_lower_quartile(samples: Seq<u16>) -> u16 {
    samples.sort_by(magnitude_leq())[samples.len() as int / 4]
}

/// The noise estimate of one magnitude window.
pub open spec fn spec_noise_estimate(magnitude: Seq<u16>) -> u16 {
    spec_lower_quartile(spec_every_16th(magnitude))
}

/// The window of recent estimates after one more: the oldest leaves once
/// there are more than 256.
pub open spec fn spec_push_estimate(window: Seq<u16>, estimate: u16) -> Seq<u16> {
    if window.len() + 1 > NOISE_FLOOR_SAMPLES {
        window.push(estimate).drop_first()
    } else {
        window.push(estimate)
    }
}

/// Sum of some magnitudes.
pub open spec fn spec_sum(values: Seq<u16>) -> int
    decreases values.len(),
{
    if values.len() == 0 {
        0
    } else {
        spec_sum(values.drop_last()) + values.last()
    }
}

/// Mean of some magnitudes, rounded down; 0 for none.
pub open spec fn spec_mean(values: Seq<u16>) -> int {
    if values.len() == 0 {
        0
    } else {
        spec_sum(values) / (values.len() as int)
    }
}

/// The fifth power.
pub open spec fn pow5(x: int) -> int {
    x * x * x * x * x
}

/// The amplitude ratio `signal / noise` is at least 2 dB:
/// `20 log10(signal / noise) >= 2`, that is `(signal / noise)^10 >= 10`.
pub open spec fn snr_at_least_2db(signal: int, noise: int) -> bool {
    pow5(signal) * pow5(signal) >= 10 * (pow5(noise) * pow5(noise))
}

/// The amplitude ratio `signal / noise` is at most 8 dB:
/// `20 log10(signal / noise) <= 8`, that is `(signal / noise)^5 <= 100`.
pub open spec fn snr_at_most_8db(signal: int, noise: int) -> bool {
    pow5(signal) <= 100 * pow5(noise)
}

/// The signal-to-noise ratio counts as zero when there is no noise estimate
/// or the signal does not rise above the noise. Otherwise a marginal signal
/// is one between 2 dB and 8 dB: too weak to decode reliably, strong enough
/// to be worth a second attempt.
pub open spec fn spec_marginal_snr(signal: u16, noise: u16) -> bool {
    &&& noise != 0
    &&& signal > noise
    &&& snr_at_least_2db(signal as int, noise as int)
    &&& snr_at_most_8db(signal as int, noise as int)
}

/// The adaptive detection threshold: two and a half times the noise floor,
/// rounded down, and no more than 16 bits hold.
pub open spec fn spec_adaptive_threshold(noise: u16) -> int {
    if noise * 5 / 2 > 0xffff {
        0xffff
    } else {
        noise * 5 / 2
    }
}

/// The two half-bit samples are so close that the bit is a guess: they
/// differ by less than a tenth of their mean (taken as at least 1).
pub open spec fn spec_ambiguous(first: u16, second: u16) -> bool {
    let diff = if first >= second {
        first - second
    } else {
        second - first
    };
    let mean = (first + second) / 2;
    diff * 10 < if mean < 1 {
        1
    } else {
        mean
    }
}

/// How many of the first `n` bits that start at sample `bit_start` are
/// ambiguous. A bit whose two samples are not both inside the window does
/// not count.
pub open spec fn spec_ambiguous_count(magnitude: Seq<u16>, bit_start: int, n: int) -> int
    decreases n,
{
    if n <= 0 {
        0
    } else if bit_start + 2 * (n - 1) + 1 >= magnitude.len() {
        spec_ambiguous_count(magnitude, bit_start, n - 1)
    } else {
        spec_ambiguous_count(magnitude, bit_start, n - 1) + if spec_ambiguous(
            magnitude[bit_start + 2 * (n - 1)],
            magnitude[bit_start + 2 * (n - 1) + 1],
        ) {
            1int
        } else {
            0int
        }
    }
}

/// More than 15 % of the bits looked at are ambiguous. At most the first 56
/// bits are looked at.
pub open spec fn spec_phase_ambiguity(magnitude: Seq<u16>, bit_start: int, num_bits: int) -> bool {
    let n = if num_bits < AMBIGUITY_BITS {
        num_bits
    } else {
        AMBIGUITY_BITS as int
    };
    spec_ambiguous_count(magnitude, bit_start, n) > n * 15 / 100
}

/// Signal quality of one frame, in magnitude units.
#[derive(Debug, Clone, Copy, PartialEq, Eq)]
pub struct SignalStats {
    /// Mean of the preamble peaks.
    pub signal_level: u16,
    /// Noise floor at the time.
    pub noise_level: u16,
    /// Whether the frame was found on the second, shifted attempt.
    pub phase_corrected: bool,
}

impl Default for SignalStats {
    /// All levels zero, no phase correction.
    fn default() -> (stats: Self)
        ensures
            stats == (SignalStats { signal_level: 0, noise_level: 0, phase_corrected: false }),
    {
        SignalStats { signal_level: 0, noise_level: 0, phase_corrected: false }
    }
}

/// Running estimate of the noise floor.
pub struct SignalProcessor {
    noise_floor: u16,
    noise_samples: VecDeque<u16>,
}

/// `<[u16]>::sort_unstable`: afterwards the vector holds the same values as
/// before, each as often as before, in ascending order.
#[verifier::external_body]
fn sort_samples(samples: &mut Vec<u16>)
    ensures
        final(samples)@.to_multiset() == old(samples)@.to_multiset(),
        sorted_by(final(samples)@, magnitude_leq()),
{
    samples.sort_unstable();
}

proof fn lemma_magnitude_leq_is_total()
    ensures
        total_ordering(magnitude_leq()),
{
    let r = magnitude_leq();
    assert(vstd::relations::reflexive(r));
    assert(vstd::relations::antisymmetric(r));
    assert(vstd::relations::transitive(r));
    assert(vstd::relations::strongly_connected(r));
}

proof fn lemma_sum_push(values: Seq<u16>, v: u16)
    ensures
        spec_sum(values.push(v)) == spec_sum(values) + v,
{
    assert(values.push(v).drop_last() =~= values);
}

proof fn lemma_sum_bound(values: Seq<u16>)
    ensures
        0 <= spec_sum(values) <= 0xffff * values.len(),
    decreases values.len(),
{
    if values.len() > 0 {
        lemma_sum_bound(values.drop_last());
    }
}

proof fn lemma_mean_bound(values: Seq<u16>)
    ensures
        0 <= spec_mean(values) <= 0xffff,
{
    lemma_sum_bound(values);
    if values.len() > 0 {
        let s = spec_sum(values);
        let n = values.len() as int;
        assert(s / n <= 0xffff) by (nonlinear_arith)
            requires
                0 <= s <= 0xffff * n,
                n > 0,
        ;
        assert(0 <= s / n) by (nonlinear_arith)
            requires
                0 <= s,
                n > 0,
        ;
    }
}

/// Takes every sixteenth sample of the window.
fn every_16th(magnitude: &[u16]) -> (samples: Vec<u16>)
    ensures
        samples@ == spec_every_16th(magnitude@),
{
    let len: usize = magnitude.len();
    let count: usize = len / NOISE_SAMPLE_STEP + if len % NOISE_SAMPLE_STEP != 0 {
        1usize
    } else {
        0usize
    };
    let mut samples: Vec<u16> = Vec::with_capacity(count);
    let mut k: usize = 0;
    while k < count
        invariant
            len == magnitude@.len(),
            count == (len + 15) / 16,
            k <= count,
            samples@.len() == k,
            forall|n: int| 0 <= n < k ==> #[trigger] samples@[n] == magnitude@[16 * n],
        decreases count - k,
    {
        samples.push(magnitude[k * NOISE_SAMPLE_STEP]);
        k += 1;
    }
    assert(samples@ =~= spec_every_16th(magnitude@));
    samples
}

/// Two to the power 40: half a limb of the wide comparisons.
const LIMB: u128 = 0x100_0000_0000;

/// Two to the power 80: a limb of the wide comparisons.
const LIMB2: u128 = 0x1_0000_0000_0000_0000_0000;

/// The fifth power of a 16-bit number.
fn fifth_power(x: u16) -> (p: u128)
    ensures
        p as int == pow5(x as int),
        p < LIMB2,
{
    let x1: u128 = x as u128;
    assert(x1 * x1 <= 0xffff * 0xffff) by (nonlinear_arith)
        requires
            x1 <= 0xffff,
    ;
    let x2: u128 = x1 * x1;
    assert(x2 * x2 <= 0xfffe0001 * 0xfffe0001) by (nonlinear_arith)
        requires
            x2 <= 0xfffe0001,
    ;
    let x4: u128 = x2 * x2;
    assert(x4 * x1 <= 0xfffe0001 * 0xfffe0001 * 0xffff) by (nonlinear_arith)
        requires
            x4 <= 0xfffe0001 * 0xfffe0001,
            x1 <= 0xffff,
    ;
    assert(x4 * x1 == pow5(x as int)) by (nonlinear_arith)
        requires
            x4 == x2 * x2,
            x2 == x1 * x1,
            x1 == x as int,
    ;
    x4 * x1
}

/// The square of a number below 2^80, as `hi * 2^80 + lo`.
fn square_wide(x: u128) -> (r: (u128, u128))
    requires
        x < LIMB2,
    ensures
        r.1 < LIMB2,
        r.0 < 2 * LIMB2,
        r.0 * LIMB2 + r.1 == x * x,
{
    let x1: u128 = x / LIMB;
    let x0: u128 = x % LIMB;
    assert(x1 * x1 <= 0xff_ffff_ffff * 0xff_ffff_ffff && x1 * x0 <= 0xff_ffff_ffff
        * 0xff_ffff_ffff && x0 * x0 <= 0xff_ffff_ffff * 0xff_ffff_ffff) by (nonlinear_arith)
        requires
            x1 <= 0xff_ffff_ffff,
            x0 <= 0xff_ffff_ffff,
    ;
    let high: u128 = x1 * x1;
    let mid: u128 = 2 * (x1 * x0);
    let low: u128 = x0 * x0;
    let m1: u128 = mid / LIMB;
    let m0: u128 = mid % LIMB;
    let l: u128 = low + m0 * LIMB;
    let carry: u128 = l / LIMB2;
    let lo: u128 = l % LIMB2;
    assert(x * x == high * 0x1_0000_0000_0000_0000_0000 + mid * 0x100_0000_0000 + low)
        by (nonlinear_arith)
        requires
            x == x1 * 0x100_0000_0000 + x0,
            high == x1 * x1,
            mid == 2 * (x1 * x0),
            low == x0 * x0,
    ;
    (high + m1 + carry, lo)
}

/// Whether `a * a >= 10 * b * b`, for numbers below 2^80.
fn square_at_least_ten_squares(a: u128, b: u128) -> (yes: bool)
    requires
        a < LIMB2,
        b < LIMB2,
    ensures
        yes == (a * a >= 10 * (b * b)),
{
    let (ah, al) = square_wide(a);
    let (bh, bl) = square_wide(b);
    let bl10: u128 = bl * 10;
    let th: u128 = bh * 10 + bl10 / LIMB2;
    let tl: u128 = bl10 % LIMB2;
    assert(th * LIMB2 + tl == 10 * (b * b)) by (nonlinear_arith)
        requires
            bh * LIMB2 + bl == b * b,
            bl10 == bl * 10,
            th == bh * 10 + bl10 / LIMB2,
            tl == bl10 % LIMB2,
            LIMB2 == 0x1_0000_0000_0000_0000_0000,
    ;
    assert((ah > th || (ah == th && al >= tl)) == (ah * LIMB2 + al >= th * LIMB2 + tl))
        by (nonlinear_arith)
        requires
            al < LIMB2,
            tl < LIMB2,
            LIMB2 > 0,
    ;
    ah > th || (ah == th && al >= tl)
}

impl SignalProcessor {
    /// The recent noise estimates, oldest first.
    pub closed spec fn window(&self) -> Seq<u16> {
        self.noise_samples@
    }

    /// The current noise floor.
    pub closed spec fn spec_noise_floor(&self) -> u16 {
        self.noise_floor
    }

    /// At most 256 estimates are kept.
    #[verifier::type_invariant]
    pub closed spec fn wf(&self) -> bool {
        self.noise_samples@.len() <= NOISE_FLOOR_SAMPLES
    }

    /// A processor without estimates; the noise floor starts at 100.
    pub fn new() -> (sp: Self)
        ensures
            sp.window() == Seq::<u16>::empty(),
            sp.spec_noise_floor() == INITIAL_NOISE_FLOOR,
    {
        SignalProcessor { noise_floor: INITIAL_NOISE_FLOOR, noise_samples: VecDeque::new() }
    }

    /// The current noise floor.
    pub fn noise_floor(&self) -> (noise: u16)
        ensures
            noise == self.spec_noise_floor(),
    {
        self.noise_floor
    }

    /// Replaces the noise floor, as a caller with its own estimate may.
    pub fn set_noise_floor(&mut self, noise: u16)
        ensures
            final(self).spec_noise_floor() == noise,
            final(self).window() == old(self).window(),
    {
        proof {
            use_type_invariant(&*self);
        }
        self.noise_floor = noise;
    }

    /// The adaptive threshold for preamble detection.
    pub fn adaptive_threshold(&self) -> (threshold: u16)
        ensures
            threshold as int == spec_adaptive_threshold(self.spec_noise_floor()),
    {
        let scaled: u32 = self.noise_floor as u32 * 5 / 2;
        if scaled > 0xffff {
            0xffff
        } else {
            scaled as u16
        }
    }

    /// Takes a noise estimate from a magnitude window: the lower quartile of
    /// every sixteenth sample. The estimate joins the recent ones, of which
    /// the last 256 are kept, and the noise floor becomes their mean. A window
    /// of fewer than 100 samples changes nothing.
    pub fn update_noise_floor(&mut self, magnitude: &[u16])
        ensures
            magnitude@.len() < MIN_NOISE_WINDOW ==> final(self).window() == old(self).window()
                && final(self).spec_noise_floor() == old(self).spec_noise_floor(),
            magnitude@.len() >= MIN_NOISE_WINDOW ==> final(self).window() == spec_push_estimate(
                old(self).window(),
                spec_noise_estimate(magnitude@),
            ) && final(self).spec_noise_floor() as int == spec_mean(final(self).window()),
    {
        proof {
            use_type_invariant(&*self);
        }
        if magnitude.len() < MIN_NOISE_WINDOW {
            return ;
        }
        let mut samples = every_16th(magnitude);
        let ghost unsorted = samples@;
        sort_samples(&mut samples);
        proof {
            lemma_magnitude_leq_is_total();
            unsorted.lemma_sort_by_ensures(magnitude_leq());
            lemma_sorted_unique(samples@, unsorted.sort_by(magnitude_leq()), magnitude_leq());
            to_multiset_len(samples@);
            to_multiset_len(unsorted);
            assert(samples@ == unsorted.sort_by(magnitude_leq()));
            assert(samples@.len() == spec_every_16th(magnitude@).len());
        }
        let quartile_idx: usize = samples.len() / 4;
        let noise_estimate: u16 = samples[quartile_idx];
        let mut window = self.noise_samples.clone();
        assert(window@ =~= self.noise_samples@);
        window.push_back(noise_estimate);
        if window.len() > NOISE_FLOOR_SAMPLES {
            let _ = window.pop_front();
        }
        let count: usize = window.len();
        let mut sum: u32 = 0;
        let mut k: usize = 0;
        while k < count
            invariant
                count == window@.len(),
                count <= NOISE_FLOOR_SAMPLES,
                k <= count,
                sum as int == spec_sum(window@.take(k as int)),
                sum <= 0xffff * k,
            decreases count - k,
        {
            proof {
                let w = window@;
                assert(w.take(k as int + 1) =~= w.take(k as int).push(w[k as int]));
                lemma_sum_push(w.take(k as int), w[k as int]);
            }
            sum += window[k] as u32;
            k += 1;
        }
        proof {
            assert(window@.take(count as int) =~= window@);
            lemma_mean_bound(window@);
        }
        self.noise_samples = window;
        self.noise_floor = (sum / count as u32) as u16;
    }

    /// The signal level of a frame: the mean of its preamble peaks, with the
    /// noise floor of the moment. Without peaks everything is zero.
    pub fn get_signal_stats(&self, preamble_peaks: &[u16]) -> (stats: SignalStats)
        requires
            preamble_peaks@.len() <= 0x10000,
        ensures
            preamble_peaks@.len() == 0 ==> stats == (SignalStats {
                signal_level: 0,
                noise_level: 0,
                phase_corrected: false,
            }),
            preamble_peaks@.len() > 0 ==> stats == (SignalStats {
                signal_level: spec_mean(preamble_peaks@) as u16,
                noise_level: self.spec_noise_floor(),
                phase_corrected: false,
            }),
    {
        if preamble_peaks.len() == 0 {
            return SignalStats::default();
        }
        let count: usize = preamble_peaks.len();
        let mut sum: u32 = 0;
        let mut k: usize = 0;
        while k < count
            invariant
                count == preamble_peaks@.len(),
                count <= 0x10000,
                k <= count,
                sum as int == spec_sum(preamble_peaks@.take(k as int)),
                sum <= 0xffff * k,
            decreases count - k,
        {
            proof {
                let w = preamble_peaks@;
                assert(w.take(k as int + 1) =~= w.take(k as int).push(w[k as int]));
                lemma_sum_push(w.take(k as int), w[k as int]);
            }
            sum += preamble_peaks[k] as u32;
            k += 1;
        }
        proof {
            assert(preamble_peaks@.take(count as int) =~= preamble_peaks@);
            lemma_mean_bound(preamble_peaks@);
        }
        SignalStats {
            signal_level: (sum / count as u32) as u16,
            noise_level: self.noise_floor,
            phase_corrected: false,
        }
    }

    /// Whether a frame that failed to decode deserves a second attempt one
    /// sample later: its signal-to-noise ratio lies between 2 dB and 8 dB.
    pub fn should_try_phase_correction(&self, signal_level: u16) -> (retry: bool)
        ensures
            retry == spec_marginal_snr(signal_level, self.spec_noise_floor()),
    {
        if self.noise_floor == 0 || signal_level <= self.noise_floor {
            return false;
        }
        let s5 = fifth_power(signal_level);
        let n5 = fifth_power(self.noise_floor);
        square_at_least_ten_squares(s5, n5) && s5 <= 100 * n5
    }
}

impl Default for SignalProcessor {
    /// A processor without estimates; the noise floor starts at 100.
    fn default() -> (sp: Self)
        ensures
            sp.window() == Seq::<u16>::empty(),
            sp.spec_noise_floor() == INITIAL_NOISE_FLOOR,
    {
        SignalProcessor::new()
    }
}

/// Whether two half-bit samples are too close to tell the bit.
fn ambiguous(first: u16, second: u16) -> (yes: bool)
    ensures
        yes == spec_ambiguous(first, second),
{
    let diff: u32 = if first >= second {
        (first - second) as u32
    } else {
        (second - first) as u32
    };
    let mean: u32 = (first as u32 + second as u32) / 2;
    diff * 10 < if mean < 1 {
        1
    } else {
        mean
    }
}

/// Whether a frame might decode better one sample later: more than 15 % of
/// its leading bits, at most 56 of them, have half-bit samples too close to
/// tell the bit.
pub fn check_phase_ambiguity(magnitude: &[u16], bit_start: usize, num_bits: usize) -> (yes: bool)
    ensures
        yes == spec_phase_ambiguity(magnitude@, bit_start as int, num_bits as int),
{
    let n: usize = if num_bits < AMBIGUITY_BITS {
        num_bits
    } else {
        AMBIGUITY_BITS
    };
    let len: usize = magnitude.len();
    let mut ambiguous_bits: usize = 0;
    let mut i: usize = 0;
    while i < n
        invariant
            n <= AMBIGUITY_BITS,
            len == magnitude@.len(),
            i <= n,
            ambiguous_bits <= i,
            ambiguous_bits as int == spec_ambiguous_count(magnitude@, bit_start as int, i as int),
        decreases n - i,
    {
        if bit_start < len && 2 * i + 1 < len - bit_start {
            let idx: usize = bit_start + i * 2;
            if ambiguous(magnitude[idx], magnitude[idx + 1]) {
                ambiguous_bits += 1;
            }
        }
        i += 1;
    }
    ambiguous_bits > n * 15 / 100
}

} // verus!
