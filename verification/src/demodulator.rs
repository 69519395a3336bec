//! From signal magnitude to frames: preamble detection, bit slicing, and
//! the acceptance of decoded frames.
//!
//! The magnitude stream holds two samples per microsecond. A frame starts
//! with a preamble of 8 microseconds, four pulses at fixed places, and goes
//! on with one bit per microsecond: a pulse in the first half of the
//! microsecond for a 1, in the second half for a 0.

use crate::bits::field;
use crate::config::Config;
use crate::crc::residual;
use crate::decoder::{
    address_in_message, decode_modes_message, lemma_header_bits, lemma_record_is_determined,
    lemma_record_residual, lemma_records_ignores_status, message_len_by_type, spec_frame_address,
    spec_frame_passes, spec_message_bits, ModesMessage,
};
use crate::magnitude::{compute_magnitude_vector, spec_magnitude_vector, MagnitudeLut};
use crate::signal::{
    spec_marginal_snr, spec_mean, spec_noise_estimate, spec_push_estimate, SignalProcessor,
};
use std::collections::HashSet;
use vstd::prelude::*;
use vstd::std_specs::hash::*;

verus! {

broadcast use vstd::std_specs::hash::group_hash_axioms;

/// Length of the preamble, in microseconds.
pub const MODES_PREAMBLE_US: usize = 8;

/// Length of a preamble with a long frame, in microseconds.
pub const MODES_FULL_LEN: usize = 8 + 112;

/// Number of samples of a preamble with a long frame: the shortest window
/// that is searched.
pub const MODES_WINDOW: usize = (8 + 112) * 2;

/// Number of sample bytes that are read at a time.
pub const MODES_DATA_LEN: usize = 16 * 16384;

/// Number of sample bytes that are kept from one read to the next, so that
/// a frame across the boundary is not lost.
pub const MODES_OVERLAP: usize = (8 + 112 - 1) * 4;

/// The sample byte of no signal.
pub const SILENCE: u8 = 127;

/// The four pulses of a preamble stand out at sample `j`: each pulse above
/// its neighbours, and the samples between the pulse pairs below the first
/// pulse.
pub open spec fn spec_preamble_shape(m: Seq<u16>, j: int) -> bool {
    &&& m[j] > m[j + 1]
    &&& m[j + 1] < m[j + 2]
    &&& m[j + 2] > m[j + 3]
    &&& m[j + 3] < m[j]
    &&& m[j + 4] < m[j]
    &&& m[j + 5] < m[j]
    &&& m[j + 6] < m[j]
    &&& m[j + 7] > m[j + 8]
    &&& m[j + 8] < m[j + 9]
    &&& m[j + 9] > m[j + 6]
}

/// The sum of the four pulses of a preamble at sample `j`.
pub open spec fn spec_pulse_sum(m: Seq<u16>, j: int) -> int {
    m[j] + m[j + 2] + m[j + 7] + m[j + 9]
}

/// The level that the quiet samples of a preamble must stay below: a sixth
/// of the sum of the four pulses.
pub open spec fn spec_high(m: Seq<u16>, j: int) -> int {
    spec_pulse_sum(m, j) / 6
}

/// The signal level of a preamble: the mean of its four pulses.
pub open spec fn spec_signal_level(m: Seq<u16>, j: int) -> int {
    spec_pulse_sum(m, j) / 4
}

/// A preamble starts at sample `j`: the pulses stand out, and the samples
/// between the pulse pairs and between preamble and data are quiet.
pub open spec fn spec_preamble(m: Seq<u16>, j: int) -> bool {
    &&& spec_preamble_shape(m, j)
    &&& m[j + 4] < spec_high(m, j)
    &&& m[j + 5] < spec_high(m, j)
    &&& m[j + 11] < spec_high(m, j)
    &&& m[j + 12] < spec_high(m, j)
    &&& m[j + 13] < spec_high(m, j)
    &&& m[j + 14] < spec_high(m, j)
}

/// Bit `i` of the data that starts at sample `start`: 1 if the first half
/// of its microsecond is the stronger, 0 if the second is, and the bit
/// before it if they are equal (0 for the first bit).
pub open spec fn spec_sliced_bit(m: Seq<u16>, start: int, i: int) -> int
    decreases i,
{
    if m[start + 2 * i] > m[start + 2 * i + 1] {
        1
    } else if m[start + 2 * i] < m[start + 2 * i + 1] {
        0
    } else if i > 0 {
        spec_sliced_bit(m, start, i - 1)
    } else {
        0
    }
}

/// Byte `k` of the data that starts at sample `start`: eight bits, the
/// first the most significant.
pub open spec fn spec_sliced_byte(m: Seq<u16>, start: int, k: int) -> u8 {
    (spec_sliced_bit(m, start, 8 * k) * 128 + spec_sliced_bit(m, start, 8 * k + 1) * 64
        + spec_sliced_bit(m, start, 8 * k + 2) * 32 + spec_sliced_bit(m, start, 8 * k + 3) * 16
        + spec_sliced_bit(m, start, 8 * k + 4) * 8 + spec_sliced_bit(m, start, 8 * k + 5) * 4
        + spec_sliced_bit(m, start, 8 * k + 6) * 2 + spec_sliced_bit(m, start, 8 * k + 7)) as u8
}

/// The 14 bytes of data that start at sample `start`.
pub open spec fn spec_sliced_frame(m: Seq<u16>, start: int) -> Seq<u8> {
    Seq::new(14, |k: int| spec_sliced_byte(m, start, k))
}

/// Length in bits of the frame whose preamble starts at sample `pos`, by
/// its first five bits.
pub open spec fn spec_frame_bits(m: Seq<u16>, pos: int) -> int {
    spec_message_bits(field(spec_sliced_frame(m, pos + 16), 0, 5) as int)
}

/// The bytes of the frame whose preamble starts at sample `pos`: as many of
/// the sliced bytes as the frame is long.
pub open spec fn spec_frame_input(m: Seq<u16>, pos: int) -> Seq<u8> {
    spec_sliced_frame(m, pos + 16).subrange(0, spec_frame_bits(m, pos) / 8)
}

/// Whether the frame whose preamble starts at sample `pos` is accepted, and
/// the known addresses afterwards. A frame with its address in the message
/// is accepted if it passes its checksum, and makes its address known. A
/// frame with its address overlaid on the checksum is accepted if the
/// address that it yields is known.
pub open spec fn spec_attempt(
    m: Seq<u16>,
    pos: int,
    known: Set<u32>,
    fix_errors: bool,
    aggressive: bool,
) -> Option<Set<u32>> {
    let raw = spec_frame_input(m, pos);
    let df = field(spec_sliced_frame(m, pos + 16), 0, 5) as int;
    let address = spec_frame_address(raw, fix_errors, aggressive);
    if address_in_message(df) {
        if spec_frame_passes(raw, fix_errors, aggressive) {
            Some(known.insert(address))
        } else {
            None
        }
    } else if known.contains(address) {
        Some(known)
    } else {
        None
    }
}

/// A frame that the search found: where its preamble was seen, where the
/// frame was taken to start, one sample later in a phase-corrected attempt,
/// and whether that was so.
pub struct Detection {
    pub preamble: int,
    pub start: int,
    pub phase_corrected: bool,
}

/// The search of a magnitude window from sample `j` on: the frames found,
/// in order, and the known addresses at the end. Where there is no preamble
/// the search moves on by one sample. Where there is one, the frame after it
/// is tried; if it is not accepted, and `retry` is set and the preamble's
/// signal-to-noise ratio is marginal, the frame one sample later is tried.
/// After an accepted frame the search moves on by the preamble and the
/// frame, else by one sample. It ends where less than a preamble and a long
/// frame are left.
#[verifier::opaque]
pub open spec fn spec_scan(
    m: Seq<u16>,
    j: int,
    known: Set<u32>,
    fix_errors: bool,
    aggressive: bool,
    retry: bool,
    noise: u16,
) -> (Seq<Detection>, Set<u32>)
    decreases m.len() - j,
{
    if j < 0 || j + 240 >= m.len() {
        (Seq::empty(), known)
    } else if !spec_preamble(m, j) {
        spec_scan(m, j + 1, known, fix_errors, aggressive, retry, noise)
    } else {
        match spec_attempt(m, j, known, fix_errors, aggressive) {
            Some(learned) => {
                let rest = spec_scan(
                    m,
                    j + (8 + spec_frame_bits(m, j)) * 2,
                    learned,
                    fix_errors,
                    aggressive,
                    retry,
                    noise,
                );
                (
                    seq![Detection { preamble: j, start: j, phase_corrected: false }] + rest.0,
                    rest.1,
                )
            },
            None => {
                if retry && spec_marginal_snr(spec_signal_level(m, j) as u16, noise) {
                    match spec_attempt(m, j + 1, known, fix_errors, aggressive) {
                        Some(learned) => {
                            let rest = spec_scan(
                                m,
                                j + (8 + spec_frame_bits(m, j + 1)) * 2,
                                learned,
                                fix_errors,
                                aggressive,
                                retry,
                                noise,
                            );
                            (
                                seq![
                                    Detection { preamble: j, start: j + 1, phase_corrected: true },
                                ] + rest.0,
                                rest.1,
                            )
                        },
                        None => spec_scan(m, j + 1, known, fix_errors, aggressive, retry, noise),
                    }
                } else {
                    spec_scan(m, j + 1, known, fix_errors, aggressive, retry, noise)
                }
            },
        }
    }
}

/// The record `mm` is what the search hands out for the frame found at
/// `found`: the frame's record, accepted, and, where the search tags its
/// frames, with the preamble's signal level and the mark of a phase
/// correction.
pub open spec fn spec_emitted(
    mm: ModesMessage,
    m: Seq<u16>,
    found: Detection,
    fix_errors: bool,
    aggressive: bool,
    tagged: bool,
) -> bool {
    &&& mm.records(
        spec_frame_input(m, found.start),
        fix_errors,
        aggressive,
        address_in_message(mm.msg_type as int),
    )
    &&& mm.crc_ok
    &&& mm.phase_corrected == (tagged && found.phase_corrected)
    &&& mm.signal_level as int == if tagged {
        spec_signal_level(m, found.preamble)
    } else {
        0
    }
}

/// The records are what the search hands out for the frames found.
pub open spec fn spec_all_emitted(
    frames: Seq<ModesMessage>,
    m: Seq<u16>,
    found: Seq<Detection>,
    fix_errors: bool,
    aggressive: bool,
    tagged: bool,
) -> bool {
    &&& frames.len() == found.len()
    &&& forall|i: int|
        0 <= i < frames.len() ==> spec_emitted(
            #[trigger] frames[i],
            m,
            found[i],
            fix_errors,
            aggressive,
            tagged,
        )
}

/// The sample buffer after a read: the last bytes of the buffer before,
/// as many as are kept, then the bytes read, then silence.
pub open spec fn spec_loaded(before: Seq<u8>, chunk: Seq<u8>) -> Seq<u8> {
    Seq::new(
        (MODES_DATA_LEN + MODES_OVERLAP) as nat,
        |i: int|
            if i < MODES_OVERLAP {
                before[MODES_DATA_LEN + i]
            } else if i < MODES_OVERLAP + chunk.len() {
                chunk[i - MODES_OVERLAP]
            } else {
                SILENCE
            },
    )
}

/// Of every frame that the search hands out, what is left of the checksum
/// field when the checksum is taken out is zero, or, for a format that
/// overlays the address on the checksum, the frame's address.
pub proof fn lemma_emitted_residual(
    mm: ModesMessage,
    m: Seq<u16>,
    found: Detection,
    fix_errors: bool,
    aggressive: bool,
    tagged: bool,
)
    requires
        spec_emitted(mm, m, found, fix_errors, aggressive, tagged),
    ensures
        residual(mm.msg@, mm.msg_bits as int) == if address_in_message(mm.msg_type as int) {
            0
        } else {
            mm.spec_icao_address()
        },
{
    lemma_record_residual(
        mm,
        spec_frame_input(m, found.start),
        fix_errors,
        aggressive,
        address_in_message(mm.msg_type as int),
    );
}

proof fn lemma_pack_byte(b0: u8, b1: u8, b2: u8, b3: u8, b4: u8, b5: u8, b6: u8, b7: u8)
    by (bit_vector)
    requires
        b0 <= 1 && b1 <= 1 && b2 <= 1 && b3 <= 1 && b4 <= 1 && b5 <= 1 && b6 <= 1 && b7 <= 1,
    ensures
        (b0 << 7) | (b1 << 6) | (b2 << 5) | (b3 << 4) | (b4 << 3) | (b5 << 2) | (b6 << 1) | b7
            == b0 * 128 + b1 * 64 + b2 * 32 + b3 * 16 + b4 * 8 + b5 * 4 + b6 * 2 + b7,
{
}

/// Whether a preamble starts at sample `j`.
pub fn is_preamble(m: &[u16], j: usize) -> (yes: bool)
    requires
        j + 14 < m@.len(),
    ensures
        yes == spec_preamble(m@, j as int),
{
    if !(m[j] > m[j + 1] && m[j + 1] < m[j + 2] && m[j + 2] > m[j + 3] && m[j + 3] < m[j] && m[j
        + 4] < m[j] && m[j + 5] < m[j] && m[j + 6] < m[j] && m[j + 7] > m[j + 8] && m[j + 8] < m[j
        + 9] && m[j + 9] > m[j + 6]) {
        return false;
    }
    let high: u16 = ((m[j] as u32 + m[j + 2] as u32 + m[j + 7] as u32 + m[j + 9] as u32) / 6) as u16;
    if m[j + 4] >= high || m[j + 5] >= high {
        return false;
    }
    if m[j + 11] >= high || m[j + 12] >= high || m[j + 13] >= high || m[j + 14] >= high {
        return false;
    }
    true
}

/// The signal level of the preamble at sample `j`: the mean of its pulses.
pub fn preamble_level(m: &[u16], j: usize) -> (level: u16)
    requires
        j + 9 < m@.len(),
    ensures
        level as int == spec_signal_level(m@, j as int),
{
    ((m[j] as u32 + m[j + 2] as u32 + m[j + 7] as u32 + m[j + 9] as u32) / 4) as u16
}

/// Slices the 112 bits that start at sample `start` and packs them into 14
/// bytes.
pub fn slice_frame(m: &[u16], start: usize) -> (msg: [u8; 14])
    requires
        start + 224 <= m@.len(),
    ensures
        msg@ == spec_sliced_frame(m@, start as int),
{
    let mlen: usize = m.len();
    let mut bits: [u8; 112] = [0u8; 112];
    let mut i: usize = 0;
    while i < 112
        invariant
            mlen == m@.len(),
            start + 224 <= mlen,
            i <= 112,
            forall|k: int|
                0 <= k < i ==> #[trigger] bits@[k] as int == spec_sliced_bit(m@, start as int, k),
        decreases 112 - i,
    {
        let first: u16 = m[start + i * 2];
        let second: u16 = m[start + i * 2 + 1];
        let bit: u8 = if first > second {
            1
        } else if first < second {
            0
        } else if i > 0 {
            bits[i - 1]
        } else {
            0
        };
        bits[i] = bit;
        i += 1;
    }
    let mut msg: [u8; 14] = [0u8; 14];
    let mut k: usize = 0;
    while k < 14
        invariant
            k <= 14,
            forall|n: int|
                0 <= n < 112 ==> #[trigger] bits@[n] as int == spec_sliced_bit(m@, start as int, n),
            forall|n: int| 0 <= n < k ==> #[trigger] msg@[n] == spec_sliced_byte(m@, start as int, n),
        decreases 14 - k,
    {
        proof {
            lemma_sliced_bit_is_bit(m@, start as int, 8 * k as int);
            lemma_sliced_bit_is_bit(m@, start as int, 8 * k as int + 1);
            lemma_sliced_bit_is_bit(m@, start as int, 8 * k as int + 2);
            lemma_sliced_bit_is_bit(m@, start as int, 8 * k as int + 3);
            lemma_sliced_bit_is_bit(m@, start as int, 8 * k as int + 4);
            lemma_sliced_bit_is_bit(m@, start as int, 8 * k as int + 5);
            lemma_sliced_bit_is_bit(m@, start as int, 8 * k as int + 6);
            lemma_sliced_bit_is_bit(m@, start as int, 8 * k as int + 7);
            lemma_pack_byte(
                bits@[8 * k as int],
                bits@[8 * k as int + 1],
                bits@[8 * k as int + 2],
                bits@[8 * k as int + 3],
                bits@[8 * k as int + 4],
                bits@[8 * k as int + 5],
                bits@[8 * k as int + 6],
                bits@[8 * k as int + 7],
            );
        }
        msg[k] = (bits[k * 8] << 7) | (bits[k * 8 + 1] << 6) | (bits[k * 8 + 2] << 5) | (bits[k * 8
            + 3] << 4) | (bits[k * 8 + 4] << 3) | (bits[k * 8 + 5] << 2) | (bits[k * 8 + 6] << 1)
            | bits[k * 8 + 7];
        k += 1;
    }
    assert(msg@ =~= spec_sliced_frame(m@, start as int));
    msg
}

proof fn lemma_sliced_bit_is_bit(m: Seq<u16>, start: int, i: int)
    requires
        0 <= i,
    ensures
        0 <= spec_sliced_bit(m, start, i) <= 1,
    decreases i,
{
    if i > 0 {
        lemma_sliced_bit_is_bit(m, start, i - 1);
    }
}

/// Decodes the frame whose preamble starts at sample `pos` and decides
/// whether it is accepted. A frame with its address in the message is
/// accepted if it passes its checksum, and makes its address known. A frame
/// with its address overlaid on the checksum is accepted if the address
/// that it yields is known, and counts as checked from then on.
#[verifier::rlimit(100)]
pub fn try_decode_at(
    m: &[u16],
    pos: usize,
    fix_errors: bool,
    aggressive: bool,
    known: &mut HashSet<u32>,
) -> (accepted: Option<ModesMessage>)
    requires
        pos + 240 <= m@.len(),
    ensures
        match accepted {
            Some(mm) => {
                &&& spec_attempt(m@, pos as int, old(known)@, fix_errors, aggressive) == Some(
                    final(known)@,
                )
                &&& mm.records(
                    spec_frame_input(m@, pos as int),
                    fix_errors,
                    aggressive,
                    address_in_message(mm.msg_type as int),
                )
                &&& mm.crc_ok
                &&& !mm.phase_corrected
                &&& mm.signal_level == 0
                &&& mm.msg_bits == spec_frame_bits(m@, pos as int)
            },
            None => {
                &&& spec_attempt(m@, pos as int, old(known)@, fix_errors, aggressive) is None
                &&& final(known)@ == old(known)@
            },
        },
{
    let mlen: usize = m.len();
    let msg = slice_frame(m, pos + MODES_PREAMBLE_US * 2);
    proof {
        lemma_header_bits(
            msg@[0],
            msg@[1],
            msg@[2],
            msg@[3],
            msg@[4],
            msg@[5],
            msg@[6],
            msg@[7],
        );
        vstd::arithmetic::power2::lemma2_to64();
    }
    let msg_type: u8 = msg[0] >> 3;
    let msg_bits: usize = message_len_by_type(msg_type);
    let msg_len: usize = msg_bits / 8;
    let raw: &[u8] = vstd::slice::slice_subrange(msg.as_slice(), 0, msg_len);
    assert(raw@ == spec_frame_input(m@, pos as int));
    let mut mm = decode_modes_message(raw, fix_errors, aggressive);
    let ghost decoded = mm;
    proof {
        lemma_record_is_determined(mm, raw@, fix_errors, aggressive, mm.crc_ok);
        lemma_same_format(raw@, msg@);
    }
    let icao_in_message: bool = mm.msg_type == 11 || mm.msg_type == 17 || mm.msg_type == 18;
    if mm.crc_ok && icao_in_message {
        let _ = known.insert(mm.icao_address());
        Some(mm)
    } else if !icao_in_message {
        let recovered_icao = mm.icao_address();
        if known.contains(&recovered_icao) {
            mm.crc_ok = true;
            proof {
                lemma_records_ignores_status(decoded, mm, raw@, fix_errors, aggressive, false);
            }
            Some(mm)
        } else {
            None
        }
    } else {
        None
    }
}

/// The first bytes of a frame have the frame's downlink format.
proof fn lemma_same_format(raw: Seq<u8>, msg: Seq<u8>)
    requires
        msg.len() == 14,
        7 <= raw.len() <= 14,
        raw == msg.subrange(0, raw.len() as int),
    ensures
        field(crate::decoder::padded_frame(raw), 0, 5) == field(msg, 0, 5),
{
    let f0 = crate::decoder::padded_frame(raw);
    assert(f0[0] == msg[0]);
    assert(f0[1] == msg[1]);
    assert(f0[2] == msg[2]);
    assert(f0[3] == msg[3]);
}

/// The frame of a step of the search as a run of frames: one or none.
pub open spec fn spec_frames_of(frame: Option<ModesMessage>) -> Seq<ModesMessage> {
    match frame {
        Some(mm) => seq![mm],
        None => Seq::empty(),
    }
}

/// Where less than a preamble and a long frame are left, the search finds
/// nothing and learns nothing.
proof fn lemma_scan_end(
    m: Seq<u16>,
    j: int,
    known: Set<u32>,
    fix_errors: bool,
    aggressive: bool,
    retry: bool,
    noise: u16,
)
    requires
        j + 240 >= m.len(),
    ensures
        spec_scan(m, j, known, fix_errors, aggressive, retry, noise) == (
            Seq::<Detection>::empty(),
            known,
        ),
{
    reveal(spec_scan);
}

/// The records of two runs of frames found are those of the two runs
/// joined.
proof fn lemma_all_emitted_join(
    frames: Seq<ModesMessage>,
    found: Seq<Detection>,
    more_frames: Seq<ModesMessage>,
    more_found: Seq<Detection>,
    m: Seq<u16>,
    fix_errors: bool,
    aggressive: bool,
    tagged: bool,
)
    requires
        spec_all_emitted(frames, m, found, fix_errors, aggressive, tagged),
        spec_all_emitted(more_frames, m, more_found, fix_errors, aggressive, tagged),
    ensures
        spec_all_emitted(
            frames + more_frames,
            m,
            found + more_found,
            fix_errors,
            aggressive,
            tagged,
        ),
{
    let all = frames + more_frames;
    let all_found = found + more_found;
    assert forall|i: int| 0 <= i < all.len() implies spec_emitted(
        #[trigger] all[i],
        m,
        all_found[i],
        fix_errors,
        aggressive,
        tagged,
    ) by {
        if i < frames.len() {
            assert(all[i] == frames[i] && all_found[i] == found[i]);
        } else {
            assert(all[i] == more_frames[i - frames.len()] && all_found[i] == more_found[i
                - frames.len()]);
        }
    }
}

/// How the search goes on from sample `j`, by what it meets there.
proof fn lemma_scan_unfold(
    m: Seq<u16>,
    j: int,
    known: Set<u32>,
    fix_errors: bool,
    aggressive: bool,
    retry: bool,
    noise: u16,
)
    requires
        0 <= j,
        j + 240 < m.len(),
    ensures
        ({
            let here = spec_scan(m, j, known, fix_errors, aggressive, retry, noise);
            let first = spec_attempt(m, j, known, fix_errors, aggressive);
            let second = spec_attempt(m, j + 1, known, fix_errors, aggressive);
            let marginal = retry && spec_marginal_snr(spec_signal_level(m, j) as u16, noise);
            let onward = spec_scan(m, j + 1, known, fix_errors, aggressive, retry, noise);
            &&& !spec_preamble(m, j) ==> here == onward
            &&& spec_preamble(m, j) && first is Some ==> {
                let rest = spec_scan(
                    m,
                    j + (8 + spec_frame_bits(m, j)) * 2,
                    first->0,
                    fix_errors,
                    aggressive,
                    retry,
                    noise,
                );
                here == (
                    seq![Detection { preamble: j, start: j, phase_corrected: false }] + rest.0,
                    rest.1,
                )
            }
            &&& spec_preamble(m, j) && first is None && marginal && second is Some ==> {
                let rest = spec_scan(
                    m,
                    j + (8 + spec_frame_bits(m, j + 1)) * 2,
                    second->0,
                    fix_errors,
                    aggressive,
                    retry,
                    noise,
                );
                here == (
                    seq![Detection { preamble: j, start: j + 1, phase_corrected: true }] + rest.0,
                    rest.1,
                )
            }
            &&& spec_preamble(m, j) && first is None && !(marginal && second is Some) ==> here
                == onward
        }),
{
    reveal(spec_scan);
}

/// A single frame found makes a run of one.
proof fn lemma_one_emitted(
    mm: ModesMessage,
    m: Seq<u16>,
    hit: Detection,
    fix_errors: bool,
    aggressive: bool,
    tagged: bool,
)
    requires
        spec_emitted(mm, m, hit, fix_errors, aggressive, tagged),
    ensures
        spec_all_emitted(spec_frames_of(Some(mm)), m, seq![hit], fix_errors, aggressive, tagged),
{
}

/// One step of the search, at sample `j`: the frame found there, if one is,
/// and the sample at which the search goes on.
#[verifier::rlimit(100)]
fn scan_step(
    m: &[u16],
    j: usize,
    fix_errors: bool,
    aggressive: bool,
    known: &mut HashSet<u32>,
    processor: &SignalProcessor,
    retry: bool,
) -> (step: (Option<ModesMessage>, usize, Ghost<Seq<Detection>>))
    requires
        j + 240 < m@.len(),
    ensures
        j < step.1 <= j + 240,
        spec_all_emitted(spec_frames_of(step.0), m@, step.2@, fix_errors, aggressive, retry),
        spec_scan(
            m@,
            j as int,
            old(known)@,
            fix_errors,
            aggressive,
            retry,
            processor.spec_noise_floor(),
        ) == (
            step.2@ + spec_scan(
                m@,
                step.1 as int,
                final(known)@,
                fix_errors,
                aggressive,
                retry,
                processor.spec_noise_floor(),
            ).0,
            spec_scan(
                m@,
                step.1 as int,
                final(known)@,
                fix_errors,
                aggressive,
                retry,
                processor.spec_noise_floor(),
            ).1,
        ),
{
    let mlen: usize = m.len();
    let ghost noise = processor.spec_noise_floor();
    let ghost none: Seq<Detection> = Seq::empty();
    proof {
        lemma_scan_unfold(m@, j as int, known@, fix_errors, aggressive, retry, noise);
        let onward = spec_scan(m@, j as int + 1, known@, fix_errors, aggressive, retry, noise);
        assert(none + onward.0 =~= onward.0);
    }
    if !is_preamble(m, j) {
        return (None, j + 1, Ghost(none));
    }
    let level: u16 = preamble_level(m, j);
    match try_decode_at(m, j, fix_errors, aggressive, known) {
        Some(mut mm) => {
            let ghost accepted = mm;
            if retry {
                mm.signal_level = level;
            }
            let ghost hit = Detection { preamble: j as int, start: j as int, phase_corrected: false };
            proof {
                lemma_records_ignores_status(
                    accepted,
                    mm,
                    spec_frame_input(m@, j as int),
                    fix_errors,
                    aggressive,
                    address_in_message(mm.msg_type as int),
                );
                lemma_one_emitted(mm, m@, hit, fix_errors, aggressive, retry);
            }
            let ghost hits = seq![hit];
            let next: usize = j + (MODES_PREAMBLE_US + mm.msg_bits) * 2;
            (Some(mm), next, Ghost(hits))
        },
        None => {
            if retry && processor.should_try_phase_correction(level) {
                match try_decode_at(m, j + 1, fix_errors, aggressive, known) {
                    Some(mut mm) => {
                        let ghost accepted = mm;
                        mm.phase_corrected = true;
                        mm.signal_level = level;
                        let ghost hit = Detection {
                            preamble: j as int,
                            start: j as int + 1,
                            phase_corrected: true,
                        };
                        proof {
                            lemma_records_ignores_status(
                                accepted,
                                mm,
                                spec_frame_input(m@, j as int + 1),
                                fix_errors,
                                aggressive,
                                address_in_message(mm.msg_type as int),
                            );
                            lemma_one_emitted(mm, m@, hit, fix_errors, aggressive, retry);
                        }
                        let ghost hits = seq![hit];
                        let next: usize = j + (MODES_PREAMBLE_US + mm.msg_bits) * 2;
                        (Some(mm), next, Ghost(hits))
                    },
                    None => (None, j + 1, Ghost(none)),
                }
            } else {
                (None, j + 1, Ghost(none))
            }
        },
    }
}

/// The search of one magnitude window.
fn scan(
    m: &[u16],
    fix_errors: bool,
    aggressive: bool,
    known: &mut HashSet<u32>,
    processor: &SignalProcessor,
    retry: bool,
) -> (frames: Vec<ModesMessage>)
    ensures
        spec_all_emitted(
            frames@,
            m@,
            spec_scan(
                m@,
                0,
                old(known)@,
                fix_errors,
                aggressive,
                retry,
                processor.spec_noise_floor(),
            ).0,
            fix_errors,
            aggressive,
            retry,
        ),
        final(known)@ == spec_scan(
            m@,
            0,
            old(known)@,
            fix_errors,
            aggressive,
            retry,
            processor.spec_noise_floor(),
        ).1,
{
    let mut frames: Vec<ModesMessage> = Vec::new();
    let mlen: usize = m.len();
    let ghost noise = processor.spec_noise_floor();
    let ghost total = spec_scan(m@, 0, old(known)@, fix_errors, aggressive, retry, noise);
    if mlen < MODES_WINDOW {
        proof {
            lemma_scan_end(m@, 0, known@, fix_errors, aggressive, retry, noise);
        }
        return frames;
    }
    let limit: usize = mlen - MODES_WINDOW;
    let ghost mut found: Seq<Detection> = Seq::empty();
    let mut j: usize = 0;
    assert(found + total.0 =~= total.0);
    while j < limit
        invariant
            mlen == m@.len(),
            mlen >= 240,
            limit == mlen - 240,
            noise == processor.spec_noise_floor(),
            total.0 == found + spec_scan(
                m@,
                j as int,
                known@,
                fix_errors,
                aggressive,
                retry,
                noise,
            ).0,
            total.1 == spec_scan(m@, j as int, known@, fix_errors, aggressive, retry, noise).1,
            spec_all_emitted(frames@, m@, found, fix_errors, aggressive, retry),
        decreases mlen - j,
    {
        let ghost frames_before = frames@;
        let ghost found_before = found;
        let (frame, next, Ghost(hits)) = scan_step(
            m,
            j,
            fix_errors,
            aggressive,
            known,
            processor,
            retry,
        );
        let ghost more = spec_frames_of(frame);
        proof {
            let rest = spec_scan(m@, next as int, known@, fix_errors, aggressive, retry, noise);
            assert(found_before + (hits + rest.0) =~= (found_before + hits) + rest.0);
            lemma_all_emitted_join(
                frames_before,
                found_before,
                more,
                hits,
                m@,
                fix_errors,
                aggressive,
                retry,
            );
            found = found_before + hits;
        }
        match frame {
            Some(mm) => {
                frames.push(mm);
                assert(frames@ =~= frames_before + more);
            },
            None => {
                assert(frames@ =~= frames_before + more);
            },
        }
        j = next;
    }
    proof {
        lemma_scan_end(m@, j as int, known@, fix_errors, aggressive, retry, noise);
        assert(found + Seq::<Detection>::empty() =~= found);
    }
    frames
}

/// The demodulator: settings, magnitude table, the addresses known from
/// checked frames, and the noise floor.
pub struct Demodulator {
    config: Config,
    pub mag_lut: MagnitudeLut,
    known_icaos: HashSet<u32>,
    signal_processor: SignalProcessor,
}

/// The buffer of raw samples between reads.
pub struct SampleBuffer {
    data: Vec<u8>,
}

impl SampleBuffer {
    /// The bytes of the buffer.
    pub closed spec fn view(&self) -> Seq<u8> {
        self.data@
    }

    /// The buffer holds room for the bytes kept and one read.
    #[verifier::type_invariant]
    pub closed spec fn wf(&self) -> bool {
        self.data@.len() == MODES_DATA_LEN + MODES_OVERLAP
    }

    /// A buffer of silence.
    pub fn new() -> (buffer: Self)
        ensures
            buffer@ == Seq::new((MODES_DATA_LEN + MODES_OVERLAP) as nat, |i: int| SILENCE),
    {
        let mut data: Vec<u8> = Vec::with_capacity(MODES_DATA_LEN + MODES_OVERLAP);
        let mut i: usize = 0;
        while i < MODES_DATA_LEN + MODES_OVERLAP
            invariant
                i <= MODES_DATA_LEN + MODES_OVERLAP,
                data@.len() == i,
                forall|k: int| 0 <= k < i ==> #[trigger] data@[k] == SILENCE,
            decreases MODES_DATA_LEN + MODES_OVERLAP - i,
        {
            data.push(SILENCE);
            i += 1;
        }
        assert(data@ =~= Seq::new((MODES_DATA_LEN + MODES_OVERLAP) as nat, |i: int| SILENCE));
        SampleBuffer { data }
    }

    /// Takes in the bytes of one read: the end of the buffer moves to its
    /// front, the bytes read follow, and silence fills what is left. Returns
    /// the number of bytes that hold samples.
    pub fn load(&mut self, chunk: &[u8]) -> (filled: usize)
        requires
            chunk@.len() <= MODES_DATA_LEN,
        ensures
            final(self)@ == spec_loaded(old(self)@, chunk@),
            filled == MODES_OVERLAP + chunk@.len(),
    {
        proof {
            use_type_invariant(&*self);
        }
        let mut data: Vec<u8> = Vec::with_capacity(MODES_DATA_LEN + MODES_OVERLAP);
        let mut i: usize = 0;
        while i < MODES_DATA_LEN + MODES_OVERLAP
            invariant
                self.data@.len() == MODES_DATA_LEN + MODES_OVERLAP,
                chunk@.len() <= MODES_DATA_LEN,
                i <= MODES_DATA_LEN + MODES_OVERLAP,
                data@.len() == i,
                forall|k: int| 0 <= k < i ==> #[trigger] data@[k] == spec_loaded(self.data@, chunk@)[k],
            decreases MODES_DATA_LEN + MODES_OVERLAP - i,
        {
            let byte: u8 = if i < MODES_OVERLAP {
                self.data[MODES_DATA_LEN + i]
            } else if i < MODES_OVERLAP + chunk.len() {
                chunk[i - MODES_OVERLAP]
            } else {
                SILENCE
            };
            data.push(byte);
            i += 1;
        }
        assert(data@ =~= spec_loaded(self.data@, chunk@));
        self.data = data;
        MODES_OVERLAP + chunk.len()
    }

    /// The first `filled` bytes of the buffer.
    pub fn samples(&self, filled: usize) -> (data: &[u8])
        requires
            filled <= MODES_DATA_LEN + MODES_OVERLAP,
        ensures
            data@ == self@.subrange(0, filled as int),
    {
        proof {
            use_type_invariant(self);
        }
        vstd::slice::slice_subrange(self.data.as_slice(), 0, filled)
    }
}

impl Demodulator {
    /// The addresses known from checked frames.
    pub closed spec fn known(&self) -> Set<u32> {
        self.known_icaos@
    }

    /// The noise floor.
    pub closed spec fn spec_noise_floor(&self) -> u16 {
        self.signal_processor.spec_noise_floor()
    }

    /// The recent noise estimates.
    pub closed spec fn noise_window(&self) -> Seq<u16> {
        self.signal_processor.window()
    }

    /// Whether single-bit errors are repaired.
    pub closed spec fn spec_fix_errors(&self) -> bool {
        self.config.fix_errors
    }

    /// Whether two-bit errors are repaired as well.
    pub closed spec fn spec_aggressive(&self) -> bool {
        self.config.aggressive
    }

    /// A demodulator that knows no address yet.
    pub fn new(config: Config) -> (demodulator: Self)
        ensures
            demodulator.known() == Set::<u32>::empty(),
            demodulator.spec_fix_errors() == config.fix_errors,
            demodulator.spec_aggressive() == config.aggressive,
            demodulator.noise_window() == Seq::<u16>::empty(),
            demodulator.spec_noise_floor() == crate::signal::INITIAL_NOISE_FLOOR,
    {
        Demodulator {
            config,
            mag_lut: MagnitudeLut::new(),
            known_icaos: HashSet::new(),
            signal_processor: SignalProcessor::new(),
        }
    }

    /// The noise floor.
    pub fn noise_floor(&self) -> (noise: u16)
        ensures
            noise == self.spec_noise_floor(),
    {
        self.signal_processor.noise_floor()
    }

    /// Searches a magnitude window for frames, with the addresses that this
    /// demodulator knows. The window first gives a noise estimate. A frame
    /// that is not accepted where its preamble was seen is tried one sample
    /// later if its signal-to-noise ratio is marginal. The frames come back
    /// in the order in which they were found, each with its signal level. A
    /// window shorter than a preamble and a long frame changes nothing.
    pub fn detect_modes_external(&mut self, magnitude: &[u16]) -> (frames: Vec<ModesMessage>)
        ensures
            final(self).spec_fix_errors() == old(self).spec_fix_errors(),
            final(self).spec_aggressive() == old(self).spec_aggressive(),
            magnitude@.len() < MODES_WINDOW ==> frames@.len() == 0 && final(self).known() == old(self).known() && final(self).noise_window() == old(self).noise_window() && final(self).spec_noise_floor() == old(self).spec_noise_floor(),
            magnitude@.len() >= MODES_WINDOW ==> {
                let found = spec_scan(
                    magnitude@,
                    0,
                    old(self).known(),
                    old(self).spec_fix_errors(),
                    old(self).spec_aggressive(),
                    true,
                    final(self).spec_noise_floor(),
                );
                &&& final(self).noise_window() == spec_push_estimate(
                    old(self).noise_window(),
                    spec_noise_estimate(magnitude@),
                )
                &&& final(self).spec_noise_floor() as int == spec_mean(final(self).noise_window())
                &&& spec_all_emitted(
                    frames@,
                    magnitude@,
                    found.0,
                    old(self).spec_fix_errors(),
                    old(self).spec_aggressive(),
                    true,
                )
                &&& final(self).known() == found.1
            },
    {
        if magnitude.len() < MODES_WINDOW {
            return Vec::new();
        }
        self.signal_processor.update_noise_floor(magnitude);
        scan(
            magnitude,
            self.config.fix_errors,
            self.config.aggressive,
            &mut self.known_icaos,
            &self.signal_processor,
            true,
        )
    }

    /// Tries the frame whose data starts 16 samples after `start_pos`, with
    /// the addresses that this demodulator knows, and marks an accepted
    /// frame with the signal level and the phase correction given. There is
    /// no frame where the window ends before the frame does.
    pub fn try_decode_message(
        &mut self,
        magnitude: &[u16],
        start_pos: usize,
        phase_corrected: bool,
        signal_level: u16,
    ) -> (accepted: Option<ModesMessage>)
        requires
            start_pos + 240 <= usize::MAX,
        ensures
            final(self).spec_fix_errors() == old(self).spec_fix_errors(),
            final(self).spec_aggressive() == old(self).spec_aggressive(),
            final(self).noise_window() == old(self).noise_window(),
            final(self).spec_noise_floor() == old(self).spec_noise_floor(),
            start_pos + 240 > magnitude@.len() ==> accepted is None && final(self).known() == old(self).known(),
            start_pos + 240 <= magnitude@.len() ==> match accepted {
                Some(mm) => {
                    &&& spec_attempt(
                        magnitude@,
                        start_pos as int,
                        old(self).known(),
                        old(self).spec_fix_errors(),
                        old(self).spec_aggressive(),
                    ) == Some(final(self).known())
                    &&& mm.records(
                        spec_frame_input(magnitude@, start_pos as int),
                        old(self).spec_fix_errors(),
                        old(self).spec_aggressive(),
                        address_in_message(mm.msg_type as int),
                    )
                    &&& mm.crc_ok
                    &&& mm.phase_corrected == phase_corrected
                    &&& mm.signal_level == signal_level
                },
                None => {
                    &&& spec_attempt(
                        magnitude@,
                        start_pos as int,
                        old(self).known(),
                        old(self).spec_fix_errors(),
                        old(self).spec_aggressive(),
                    ) is None
                    &&& final(self).known() == old(self).known()
                },
            },
    {
        if start_pos + MODES_WINDOW > magnitude.len() {
            return None;
        }
        match try_decode_at(
            magnitude,
            start_pos,
            self.config.fix_errors,
            self.config.aggressive,
            &mut self.known_icaos,
        ) {
            Some(mut mm) => {
                let ghost accepted = mm;
                mm.phase_corrected = phase_corrected;
                mm.signal_level = signal_level;
                proof {
                    lemma_records_ignores_status(
                        accepted,
                        mm,
                        spec_frame_input(magnitude@, start_pos as int),
                        self.config.fix_errors,
                        self.config.aggressive,
                        address_in_message(mm.msg_type as int),
                    );
                }
                Some(mm)
            },
            None => None,
        }
    }

    /// Searches a magnitude window for frames, with a set of known
    /// addresses of the caller's, without second attempts and without
    /// signal levels. The frames come back in the order in which they were
    /// found.
    pub fn detect_modes_with_icao_tracking(
        &self,
        m: &[u16],
        known_icaos: &mut HashSet<u32>,
    ) -> (frames: Vec<ModesMessage>)
        ensures
            spec_all_emitted(
                frames@,
                m@,
                spec_scan(
                    m@,
                    0,
                    old(known_icaos)@,
                    self.spec_fix_errors(),
                    self.spec_aggressive(),
                    false,
                    self.spec_noise_floor(),
                ).0,
                self.spec_fix_errors(),
                self.spec_aggressive(),
                false,
            ),
            final(known_icaos)@ == spec_scan(
                m@,
                0,
                old(known_icaos)@,
                self.spec_fix_errors(),
                self.spec_aggressive(),
                false,
                self.spec_noise_floor(),
            ).1,
    {
        scan(
            m,
            self.config.fix_errors,
            self.config.aggressive,
            known_icaos,
            &self.signal_processor,
            false,
        )
    }

    /// Takes in the bytes of one read of a sample file and searches what
    /// the buffer then holds: the bytes kept from the read before, and the
    /// bytes read.
    pub fn process_chunk(
        &self,
        buffer: &mut SampleBuffer,
        chunk: &[u8],
        known_icaos: &mut HashSet<u32>,
    ) -> (frames: Vec<ModesMessage>)
        requires
            chunk@.len() <= MODES_DATA_LEN,
        ensures
            final(buffer)@ == spec_loaded(old(buffer)@, chunk@),
            exists|magnitude: Seq<u16>|
                {
                    &&& magnitude.map_values(|v: u16| v as int) == spec_magnitude_vector(
                        final(buffer)@.subrange(0, MODES_OVERLAP + chunk@.len()),
                    )
                    &&& spec_all_emitted(
                        frames@,
                        magnitude,
                        spec_scan(
                            magnitude,
                            0,
                            old(known_icaos)@,
                            self.spec_fix_errors(),
                            self.spec_aggressive(),
                            false,
                            self.spec_noise_floor(),
                        ).0,
                        self.spec_fix_errors(),
                        self.spec_aggressive(),
                        false,
                    )
                    &&& final(known_icaos)@ == spec_scan(
                        magnitude,
                        0,
                        old(known_icaos)@,
                        self.spec_fix_errors(),
                        self.spec_aggressive(),
                        false,
                        self.spec_noise_floor(),
                    ).1
                },
    {
        let filled = buffer.load(chunk);
        let magnitude = compute_magnitude_vector(buffer.samples(filled), &self.mag_lut);
        self.detect_modes_with_icao_tracking(&magnitude, known_icaos)
    }
}

} // verus!
