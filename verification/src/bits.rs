//! Bit fields of a frame.
//!
//! Mode S numbers the bits of a frame from the most significant bit of the
//! first byte. A field is a run of consecutive bits, read as a big-endian
//! number.

use vstd::arithmetic::power2::pow2;
use vstd::prelude::*;

verus! {

/// Byte `i` of the frame; zero outside it.
pub open spec fn byte_at(frame: Seq<u8>, i: int) -> u8 {
    if 0 <= i < frame.len() {
        frame[i]
    } else {
        0
    }
}

/// Four bytes as one big-endian 32-bit word.
pub open spec fn word(b0: u8, b1: u8, b2: u8, b3: u8) -> u32 {
    ((b0 as u32) << 24) | ((b1 as u32) << 16) | ((b2 as u32) << 8) | (b3 as u32)
}

/// A word shifted right and masked.
pub open spec fn cut(w: u32, shift: u32, mask: u32) -> u32 {
    (w >> shift) & mask
}

/// The `len` bits of a word that start `offset` bits below its most
/// significant bit.
pub open spec fn word_bits(w: u32, offset: u32, len: u32) -> u32 {
    cut(w, (32 - offset - len) as u32, (pow2(len as nat) - 1) as u32)
}

/// The field of `len` bits that starts at bit `start` of the frame, as a
/// number. A field spans at most four bytes.
pub open spec fn field(frame: Seq<u8>, start: int, len: int) -> u32
    recommends
        0 <= start,
        0 < len,
        start % 8 + len <= 32,
{
    word_bits(
        word(
            byte_at(frame, start / 8),
            byte_at(frame, start / 8 + 1),
            byte_at(frame, start / 8 + 2),
            byte_at(frame, start / 8 + 3),
        ),
        (start % 8) as u32,
        len as u32,
    )
}

/// Bit `k` of the frame, as 0 or 1.
pub open spec fn bit(frame: Seq<u8>, k: int) -> u32 {
    field(frame, k, 1)
}

/// A two's-complement number of `width` bits as a signed number.
pub open spec fn signed(value: int, width: nat) -> int {
    if value >= pow2((width - 1) as nat) {
        value - pow2(width)
    } else {
        value
    }
}

} // verus!
