//! The Mode S 24-bit checksum and the repairs built on it.
//!
//! The checksum is linear over GF(2): every message bit that is set
//! contributes one fixed 24-bit word, and the contributions are XORed. The
//! last 24 bits of a frame carry the checksum that the sender computed, for
//! some downlink formats XORed with the sender's address.

use vstd::arithmetic::power2::{lemma2_to64, pow2};
use vstd::bits::{lemma_u32_pow2_no_overflow, lemma_u32_shl_is_mul};
use vstd::prelude::*;

verus! {

/// Per-bit contributions to the checksum of a 112-bit frame. A 56-bit frame
/// uses the last 56 entries. The last 24 entries belong to the checksum field
/// itself and contribute nothing.
pub const MODES_CHECKSUM_TABLE: [u32; 112] = [
    0x3935ea, 0x1c9af5, 0xf1b77e, 0x78dbbf, 0xc397db, 0x9e31e9, 0xb0e2f0, 0x587178,
    0x2c38bc, 0x161c5e, 0x0b0e2f, 0xfa7d13, 0x82c48d, 0xbe9842, 0x5f4c21, 0xd05c14,
    0x682e0a, 0x341705, 0xe5f186, 0x72f8c3, 0xc68665, 0x9cb936, 0x4e5c9b, 0xd8d449,
    0x939020, 0x49c810, 0x24e408, 0x127204, 0x093902, 0x049c81, 0xfdb444, 0x7eda22,
    0x3f6d11, 0xe04c8c, 0x702646, 0x381323, 0xe3f395, 0x8e03ce, 0x4701e7, 0xdc7af7,
    0x91c77f, 0xb719bb, 0xa476d9, 0xadc168, 0x56e0b4, 0x2b705a, 0x15b82d, 0xf52612,
    0x7a9309, 0xc2b380, 0x6159c0, 0x30ace0, 0x185670, 0x0c2b38, 0x06159c, 0x030ace,
    0x018567, 0xff38b7, 0x80665f, 0xbfc92b, 0xa01e91, 0xaff54c, 0x57faa6, 0x2bfd53,
    0xea04ad, 0x8af852, 0x457c29, 0xdd4410, 0x6ea208, 0x375104, 0x1ba882, 0x0dd441,
    0xf91024, 0x7c8812, 0x3e4409, 0xe0d800, 0x706c00, 0x383600, 0x1c1b00, 0x0e0d80,
    0x0706c0, 0x038360, 0x01c1b0, 0x00e0d8, 0x00706c, 0x003836, 0x001c1b, 0xfff409,
    0x000000, 0x000000, 0x000000, 0x000000, 0x000000, 0x000000, 0x000000, 0x000000,
    0x000000, 0x000000, 0x000000, 0x000000, 0x000000, 0x000000, 0x000000, 0x000000,
    0x000000, 0x000000, 0x000000, 0x000000, 0x000000, 0x000000, 0x000000, 0x000000,
];

/// The two frame lengths of Mode S, in bits.
pub open spec fn valid_bits(bits: int) -> bool {
    bits == 56 || bits == 112
}

/// The byte with only bit `j % 8` of a frame byte set, counting from the most
/// significant bit.
pub open spec fn bit_mask(j: int) -> u8 {
    1u8 << ((7 - j % 8) as u8)
}

/// Whether bit `j` of the frame is set; bit 0 is the most significant bit of
/// byte 0.
pub open spec fn frame_bit(msg: Seq<u8>, j: int) -> bool {
    msg[j / 8] & bit_mask(j) != 0
}

/// The frame with bit `j` inverted.
pub open spec fn flip_bit(msg: Seq<u8>, j: int) -> Seq<u8> {
    msg.update(j / 8, msg[j / 8] ^ bit_mask(j))
}

/// What bit `j` of a frame of `bits` bits adds to the checksum when it is set.
pub open spec fn bit_weight(bits: int, j: int) -> u32 {
    MODES_CHECKSUM_TABLE@[j + (112 - bits)]
}

/// XOR of the weights of the set bits among the first `n` bits of the frame.
pub open spec fn checksum_prefix(msg: Seq<u8>, bits: int, n: int) -> u32
    decreases n,
{
    if n <= 0 {
        0
    } else if frame_bit(msg, n - 1) {
        checksum_prefix(msg, bits, n - 1) ^ bit_weight(bits, n - 1)
    } else {
        checksum_prefix(msg, bits, n - 1)
    }
}

/// The checksum of a frame: XOR of the weights of all its set bits.
pub open spec fn checksum(msg: Seq<u8>, bits: int) -> u32 {
    checksum_prefix(msg, bits, bits)
}

/// Three bytes read as one big-endian 24-bit number.
pub open spec fn be24(a: u8, b: u8, c: u8) -> u32 {
    (a as u32 * 65536 + b as u32 * 256 + c as u32) as u32
}

/// The checksum field of a frame: its last three bytes as a 24-bit number.
pub open spec fn crc_field(msg: Seq<u8>, bits: int) -> u32 {
    be24(msg[bits / 8 - 3], msg[bits / 8 - 2], msg[bits / 8 - 1])
}

/// What is left when the computed checksum is taken out of the checksum
/// field: zero for an intact frame that carries a plain checksum, the
/// sender's address for an intact frame that carries checksum XOR address.
pub open spec fn residual(msg: Seq<u8>, bits: int) -> u32 {
    checksum(msg, bits) ^ crc_field(msg, bits)
}

/// The frame's checksum field equals its computed checksum.
pub open spec fn crc_ok(msg: Seq<u8>, bits: int) -> bool {
    crc_field(msg, bits) == checksum(msg, bits)
}

/// Inverting bit `j` makes the frame valid, and no earlier bit does.
pub open spec fn first_single_fix(msg: Seq<u8>, bits: int, j: int) -> bool {
    &&& 0 <= j < bits
    &&& crc_ok(flip_bit(msg, j), bits)
    &&& forall|i: int| 0 <= i < j ==> !crc_ok(#[trigger] flip_bit(msg, i), bits)
}

/// No single inverted bit makes the frame valid.
pub open spec fn no_single_fix(msg: Seq<u8>, bits: int) -> bool {
    forall|i: int| 0 <= i < bits ==> !crc_ok(#[trigger] flip_bit(msg, i), bits)
}

/// Inverting bits `j < i` makes the frame valid.
pub open spec fn double_fix(msg: Seq<u8>, bits: int, j: int, i: int) -> bool {
    0 <= j < i < bits && crc_ok(flip_bit(flip_bit(msg, j), i), bits)
}

/// The pair `(j, i)` comes before `(j2, i2)` in the order of the search:
/// by the first bit, then by the second.
pub open spec fn pair_before(j: int, i: int, j2: int, i2: int) -> bool {
    j < j2 || (j == j2 && i < i2)
}

/// Inverting bits `j < i` makes the frame valid, and no earlier pair does.
pub open spec fn first_double_fix(msg: Seq<u8>, bits: int, j: int, i: int) -> bool {
    &&& double_fix(msg, bits, j, i)
    &&& forall|a: int, b: int|
        0 <= a < b < bits && pair_before(a, b, j, i) ==> !#[trigger] double_fix(msg, bits, a, b)
}

/// No pair of inverted bits makes the frame valid.
pub open spec fn no_double_fix(msg: Seq<u8>, bits: int) -> bool {
    forall|a: int, b: int| 0 <= a < b < bits ==> !#[trigger] double_fix(msg, bits, a, b)
}

/// A plausible aircraft address: 24 bits, not zero.
pub open spec fn spec_is_valid_icao(icao: u32) -> bool {
    icao != 0 && icao < 0x1000000
}

/// XOR on 32-bit words: zero is neutral, every word is its own inverse, the
/// order does not matter, and 24-bit words give a 24-bit word.
pub proof fn lemma_xor(a: u32, b: u32, c: u32)
    by (bit_vector)
    ensures
        a ^ 0 == a,
        0 ^ a == a,
        a ^ a == 0,
        (a ^ b == 0) <==> (a == b),
        (a ^ b) ^ c == (a ^ c) ^ b,
        (a ^ b) ^ b == a,
        (a ^ b) ^ (c ^ 0) == (a ^ c) ^ b,
        (a ^ 0) ^ (c ^ b) == (a ^ c) ^ b,
        a < 0x1000000 && b < 0x1000000 ==> (a ^ b) < 0x1000000,
{
}

proof fn lemma_mask(b: u8, i: u8, k: u8)
    by (bit_vector)
    requires
        i < 8,
        k < 8,
    ensures
        (b ^ (1u8 << k)) ^ (1u8 << k) == b,
        i != k ==> ((b ^ (1u8 << k)) & (1u8 << i) != 0) == (b & (1u8 << i) != 0),
        ((b ^ (1u8 << k)) & (1u8 << k) != 0) == !(b & (1u8 << k) != 0),
{
}

/// Three bytes packed with shifts are the big-endian 24-bit number.
pub proof fn lemma_be24(a: u8, b: u8, c: u8)
    by (bit_vector)
    ensures
        ((a as u32) << 16) | ((b as u32) << 8) | (c as u32) == (a as u32) * 65536 + (b as u32)
            * 256 + (c as u32),
        (a as u32) * 65536 + (b as u32) * 256 + (c as u32) < 0x1000000,
{
}

proof fn lemma_table_is_24_bit(k: int)
    requires
        0 <= k < 112,
    ensures
        MODES_CHECKSUM_TABLE@[k] < 0x1000000,
{
    if k < 28 {
    } else if k < 56 {
    } else if k < 84 {
    } else {
    }
}

/// The checksum is a 24-bit number.
pub proof fn lemma_checksum_prefix_is_24_bit(msg: Seq<u8>, bits: int, n: int)
    requires
        valid_bits(bits),
        n <= bits,
    ensures
        checksum_prefix(msg, bits, n) < 0x1000000,
    decreases n,
{
    if n > 0 {
        lemma_checksum_prefix_is_24_bit(msg, bits, n - 1);
        lemma_table_is_24_bit(n - 1 + (112 - bits));
        lemma_xor(checksum_prefix(msg, bits, n - 1), bit_weight(bits, n - 1), 0);
    }
}

/// Computes the checksum of a frame of `bits` bits.
pub fn modes_checksum(msg: &[u8], bits: usize) -> (crc: u32)
    requires
        valid_bits(bits as int),
        msg@.len() >= bits / 8,
    ensures
        crc == checksum(msg@, bits as int),
        crc < 0x1000000,
{
    let mut crc: u32 = 0;
    let offset: usize = if bits == 112 {
        0
    } else {
        112 - 56
    };
    let mut j: usize = 0;
    while j < bits
        invariant
            valid_bits(bits as int),
            msg@.len() >= bits / 8,
            offset == 112 - bits,
            j <= bits,
            crc == checksum_prefix(msg@, bits as int, j as int),
        decreases bits - j,
    {
        let byte_idx: usize = j / 8;
        let bit_idx: usize = j % 8;
        let bitmask: u8 = 1u8 << (7 - bit_idx);
        if msg[byte_idx] & bitmask != 0 {
            crc ^= MODES_CHECKSUM_TABLE[j + offset];
        }
        j += 1;
    }
    proof {
        lemma_checksum_prefix_is_24_bit(msg@, bits as int, bits as int);
    }
    crc
}

/// Reads the checksum field: the last three bytes of the frame.
pub fn extract_crc(msg: &[u8], bits: usize) -> (crc: u32)
    requires
        valid_bits(bits as int),
        msg@.len() >= bits / 8,
    ensures
        crc == crc_field(msg@, bits as int),
        crc < 0x1000000,
{
    let len: usize = bits / 8;
    proof {
        lemma_be24(msg@[len - 3], msg@[len - 2], msg@[len - 1]);
    }
    ((msg[len - 3] as u32) << 16) | ((msg[len - 2] as u32) << 8) | (msg[len - 1] as u32)
}

/// Recovers what was XORed into the checksum field: for the formats that
/// overlay the sender's address on the checksum, the address.
pub fn recover_icao_from_crc(msg: &[u8], bits: usize) -> (icao: u32)
    requires
        valid_bits(bits as int),
        msg@.len() >= bits / 8,
    ensures
        icao == residual(msg@, bits as int),
        icao < 0x1000000,
{
    let crc = modes_checksum(msg, bits);
    let received = extract_crc(msg, bits);
    proof {
        lemma_xor(crc, received, 0);
    }
    crc ^ received
}

/// Whether an address is plausible: 24 bits, not zero.
pub fn is_valid_icao(icao: u32) -> (ok: bool)
    ensures
        ok == spec_is_valid_icao(icao),
{
    icao != 0 && icao < 0x1000000
}

/// Whether the checksum field matches the computed checksum.
pub fn verify_crc(msg: &[u8], bits: usize) -> (ok: bool)
    requires
        valid_bits(bits as int),
        msg@.len() >= bits / 8,
    ensures
        ok == crc_ok(msg@, bits as int),
{
    let crc_in_msg = extract_crc(msg, bits);
    let computed_crc = modes_checksum(msg, bits);
    crc_in_msg == computed_crc
}

/// Inverts bit `j` of the frame in place.
fn toggle_bit(msg: &mut [u8], j: usize)
    requires
        j / 8 < old(msg)@.len(),
    ensures
        final(msg)@ == flip_bit(old(msg)@, j as int),
{
    let bitmask: u8 = 1u8 << (7 - (j % 8));
    msg[j / 8] ^= bitmask;
}

/// Inverting the same bit twice gives the frame back.
pub proof fn lemma_flip_twice(msg: Seq<u8>, j: int)
    requires
        0 <= j,
        j / 8 < msg.len(),
    ensures
        flip_bit(flip_bit(msg, j), j) == msg,
{
    lemma_mask(msg[j / 8], 0, (7 - j % 8) as u8);
    assert(flip_bit(flip_bit(msg, j), j) =~= msg);
}

/// Tries each bit of the frame in turn: if inverting it makes the checksum
/// field match the computed checksum, the inversion is kept and the bit's
/// position returned. Without such a bit the frame is left as it was.
pub fn fix_single_bit_errors(msg: &mut [u8], bits: usize) -> (fixed: Option<usize>)
    requires
        valid_bits(bits as int),
        old(msg)@.len() >= bits / 8,
    ensures
        match fixed {
            Some(j) => first_single_fix(old(msg)@, bits as int, j as int) && final(msg)@
                == flip_bit(old(msg)@, j as int),
            None => no_single_fix(old(msg)@, bits as int) && final(msg)@ == old(msg)@,
        },
{
    let mut j: usize = 0;
    while j < bits
        invariant
            valid_bits(bits as int),
            msg@ == old(msg)@,
            msg@.len() >= bits / 8,
            j <= bits,
            forall|i: int| 0 <= i < j ==> !crc_ok(#[trigger] flip_bit(old(msg)@, i), bits as int),
        decreases bits - j,
    {
        toggle_bit(msg, j);
        if verify_crc(msg, bits) {
            return Some(j);
        }
        toggle_bit(msg, j);
        proof {
            lemma_flip_twice(old(msg)@, j as int);
        }
        j += 1;
    }
    None
}

/// Tries each pair of bits of the frame, ordered by the first bit and then
/// by the second: if inverting both makes the checksum field match the
/// computed checksum, the inversions are kept and the two positions returned.
/// Without such a pair the frame is left as it was.
pub fn fix_two_bit_errors(msg: &mut [u8], bits: usize) -> (fixed: Option<(usize, usize)>)
    requires
        valid_bits(bits as int),
        old(msg)@.len() >= bits / 8,
    ensures
        match fixed {
            Some((j, i)) => first_double_fix(old(msg)@, bits as int, j as int, i as int)
                && final(msg)@ == flip_bit(flip_bit(old(msg)@, j as int), i as int),
            None => no_double_fix(old(msg)@, bits as int) && final(msg)@ == old(msg)@,
        },
{
    let mut j: usize = 0;
    while j < bits
        invariant
            valid_bits(bits as int),
            msg@ == old(msg)@,
            msg@.len() >= bits / 8,
            j <= bits,
            forall|a: int, b: int|
                0 <= a < b < bits && a < j ==> !#[trigger] double_fix(
                    old(msg)@,
                    bits as int,
                    a,
                    b,
                ),
        decreases bits - j,
    {
        toggle_bit(msg, j);
        let mut i: usize = j + 1;
        while i < bits
            invariant
                valid_bits(bits as int),
                msg@ == flip_bit(old(msg)@, j as int),
                msg@.len() >= bits / 8,
                j < i <= bits,
                forall|a: int, b: int|
                    0 <= a < b < bits && a < j ==> !#[trigger] double_fix(
                        old(msg)@,
                        bits as int,
                        a,
                        b,
                    ),
                forall|b: int|
                    j < b < i ==> !#[trigger] double_fix(old(msg)@, bits as int, j as int, b),
            decreases bits - i,
        {
            toggle_bit(msg, i);
            if verify_crc(msg, bits) {
                return Some((j, i));
            }
            toggle_bit(msg, i);
            proof {
                lemma_flip_twice(flip_bit(old(msg)@, j as int), i as int);
            }
            i += 1;
        }
        toggle_bit(msg, j);
        proof {
            lemma_flip_twice(old(msg)@, j as int);
        }
        j += 1;
    }
    None
}

/// What inverting bit `j` does to the residual of a frame: for a message bit
/// its checksum weight, for a bit of the checksum field that bit itself.
pub open spec fn syndrome(bits: int, j: int) -> u32 {
    if j < bits - 24 {
        bit_weight(bits, j)
    } else {
        pow2((bits - 1 - j) as nat) as u32
    }
}

proof fn lemma_be24_flip(a: u8, b: u8, c: u8, k: u8)
    by (bit_vector)
    requires
        k < 8,
    ensures
        ((a ^ (1u8 << k)) as u32) * 65536 + (b as u32) * 256 + (c as u32) == (((a as u32) * 65536
            + (b as u32) * 256 + (c as u32)) as u32) ^ (1u32 << ((k + 16) as u32)),
        (a as u32) * 65536 + ((b ^ (1u8 << k)) as u32) * 256 + (c as u32) == (((a as u32) * 65536
            + (b as u32) * 256 + (c as u32)) as u32) ^ (1u32 << ((k + 8) as u32)),
        (a as u32) * 65536 + (b as u32) * 256 + ((c ^ (1u8 << k)) as u32) == (((a as u32) * 65536
            + (b as u32) * 256 + (c as u32)) as u32) ^ (1u32 << (k as u32)),
{
}

proof fn lemma_flip_frame_bit(msg: Seq<u8>, j: int, i: int)
    requires
        0 <= j,
        0 <= i,
        j / 8 < msg.len(),
        i / 8 < msg.len(),
    ensures
        frame_bit(flip_bit(msg, j), i) == (frame_bit(msg, i) != (i == j)),
{
    if i / 8 == j / 8 {
        lemma_mask(msg[j / 8], (7 - i % 8) as u8, (7 - j % 8) as u8);
    }
}

proof fn lemma_flip_checksum_prefix(msg: Seq<u8>, bits: int, j: int, n: int)
    requires
        valid_bits(bits),
        msg.len() >= bits / 8,
        0 <= j < bits,
        0 <= n <= bits,
    ensures
        checksum_prefix(flip_bit(msg, j), bits, n) == if n > j {
            checksum_prefix(msg, bits, n) ^ bit_weight(bits, j)
        } else {
            checksum_prefix(msg, bits, n)
        },
    decreases n,
{
    if n > 0 {
        lemma_flip_checksum_prefix(msg, bits, j, n - 1);
        lemma_flip_frame_bit(msg, j, n - 1);
        let before = checksum_prefix(msg, bits, n - 1);
        lemma_xor(before, bit_weight(bits, j), bit_weight(bits, n - 1));
    }
}

proof fn lemma_flip_crc_field(msg: Seq<u8>, bits: int, j: int)
    requires
        valid_bits(bits),
        msg.len() >= bits / 8,
        0 <= j < bits,
    ensures
        crc_field(flip_bit(msg, j), bits) == if j < bits - 24 {
            crc_field(msg, bits)
        } else {
            crc_field(msg, bits) ^ syndrome(bits, j)
        },
{
    let len = bits / 8;
    if j >= bits - 24 {
        let k = (7 - j % 8) as u8;
        lemma_be24_flip(msg[len - 3], msg[len - 2], msg[len - 1], k);
        let shift = (bits - 1 - j) as u32;
        lemma_u32_pow2_no_overflow(shift as nat);
        lemma_u32_shl_is_mul(1, shift);
    }
}

/// Inverting bit `j` changes the residual by that bit's syndrome, whatever
/// the rest of the frame holds.
pub proof fn lemma_flip_residual(msg: Seq<u8>, bits: int, j: int)
    requires
        valid_bits(bits),
        msg.len() >= bits / 8,
        0 <= j < bits,
    ensures
        residual(flip_bit(msg, j), bits) == residual(msg, bits) ^ syndrome(bits, j),
{
    lemma_flip_checksum_prefix(msg, bits, j, bits);
    lemma_flip_crc_field(msg, bits, j);
    lemma_xor(checksum(msg, bits), syndrome(bits, j), crc_field(msg, bits));
}

/// In a 112-bit frame no two bits have the same syndrome, and no syndrome is
/// zero: the residual of a frame with one inverted bit names that bit.
#[verifier::rlimit(50)]
pub proof fn lemma_syndromes_differ(j: int, i: int)
    requires
        0 <= j < 112,
        0 <= i < 112,
        j != i,
    ensures
        syndrome(112, j) != syndrome(112, i),
        syndrome(112, j) != 0,
{
    lemma2_to64();
}

/// A 112-bit frame whose checksum matches is left alone by the single-bit
/// repair: no single inversion keeps it valid.
pub proof fn lemma_valid_frame_has_no_single_fix(msg: Seq<u8>)
    requires
        msg.len() >= 14,
        crc_ok(msg, 112),
    ensures
        no_single_fix(msg, 112),
{
    assert forall|i: int| 0 <= i < 112 implies !crc_ok(#[trigger] flip_bit(msg, i), 112) by {
        lemma_flip_residual(msg, 112, i);
        lemma_syndromes_differ(i, if i == 0 { 1 } else { 0 });
        lemma_xor(checksum(msg, 112), crc_field(msg, 112), 0);
        lemma_xor(0, syndrome(112, i), 0);
        let g = flip_bit(msg, i);
        lemma_xor(checksum(g, 112), crc_field(g, 112), 0);
    }
}

/// A valid 112-bit frame with bit `k` inverted is repaired by the single-bit
/// repair: `k` is the first, and only, bit whose inversion makes the frame
/// valid, and inverting it gives the frame back as it was sent.
pub proof fn lemma_single_error_is_repaired(msg: Seq<u8>, k: int)
    requires
        msg.len() >= 14,
        crc_ok(msg, 112),
        0 <= k < 112,
    ensures
        first_single_fix(flip_bit(msg, k), 112, k),
        flip_bit(flip_bit(msg, k), k) == msg,
        forall|j: int| first_single_fix(flip_bit(msg, k), 112, j) ==> j == k,
{
    let damaged = flip_bit(msg, k);
    lemma_flip_twice(msg, k);
    lemma_flip_residual(msg, 112, k);
    lemma_xor(checksum(msg, 112), crc_field(msg, 112), 0);
    lemma_xor(syndrome(112, k), 0, 0);
    assert(residual(damaged, 112) == syndrome(112, k));
    assert forall|i: int| 0 <= i < 112 && i != k implies !crc_ok(
        #[trigger] flip_bit(damaged, i),
        112,
    ) by {
        lemma_flip_residual(damaged, 112, i);
        lemma_syndromes_differ(k, i);
        lemma_xor(syndrome(112, k), syndrome(112, i), 0);
        let g = flip_bit(damaged, i);
        lemma_xor(checksum(g, 112), crc_field(g, 112), 0);
    }
}

} // verus!
