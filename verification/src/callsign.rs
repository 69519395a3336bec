//! Callsigns: eight characters of six bits each, in the AIS character set.

use crate::bits::{byte_at, cut, field, word};
use vstd::arithmetic::power2::lemma2_to64;
use vstd::prelude::*;

verus! {

/// Number of characters of a callsign field.
pub const CALLSIGN_LEN: usize = 8;

/// The AIS character set: letters at 1 to 26, the space at 32, digits at 48
/// to 57, and a question mark wherever no character is assigned.
pub const AIS_CHARSET: [char; 64] = [
    '?', 'A', 'B', 'C', 'D', 'E', 'F', 'G', 'H', 'I', 'J', 'K', 'L', 'M', 'N', 'O',
    'P', 'Q', 'R', 'S', 'T', 'U', 'V', 'W', 'X', 'Y', 'Z', '?', '?', '?', '?', '?',
    ' ', '?', '?', '?', '?', '?', '?', '?', '?', '?', '?', '?', '?', '?', '?', '?',
    '0', '1', '2', '3', '4', '5', '6', '7', '8', '9', '?', '?', '?', '?', '?', '?',
];

/// The six-bit index of character `k` of a callsign field that starts at
/// byte `first_byte` of the frame.
pub open spec fn spec_ais_index(frame: Seq<u8>, first_byte: int, k: int) -> int {
    field(frame, 8 * first_byte + 6 * k, 6) as int
}

/// The eight characters of a callsign field, spaces included.
pub open spec fn spec_ais_chars(frame: Seq<u8>, first_byte: int) -> Seq<char> {
    Seq::new(8, |k: int| AIS_CHARSET@[spec_ais_index(frame, first_byte, k)])
}

/// Some characters without their leading spaces.
pub open spec fn spec_trim_start(s: Seq<char>) -> Seq<char>
    decreases s.len(),
{
    if s.len() > 0 && s.first() == ' ' {
        spec_trim_start(s.drop_first())
    } else {
        s
    }
}

/// Some characters without their trailing spaces.
pub open spec fn spec_trim_end(s: Seq<char>) -> Seq<char>
    decreases s.len(),
{
    if s.len() > 0 && s.last() == ' ' {
        spec_trim_end(s.drop_last())
    } else {
        s
    }
}

/// Some characters without their leading and trailing spaces.
pub open spec fn spec_trim_spaces(s: Seq<char>) -> Seq<char> {
    spec_trim_end(spec_trim_start(s))
}

/// The callsign of a callsign field: its eight characters without leading
/// and trailing spaces.
pub open spec fn spec_callsign(frame: Seq<u8>, first_byte: int) -> Seq<char> {
    spec_trim_spaces(spec_ais_chars(frame, first_byte))
}

/// Every index of the callsign field stands for an assigned character.
pub open spec fn spec_callsign_is_printable(frame: Seq<u8>, first_byte: int) -> bool {
    forall|k: int| 0 <= k < 8 ==> AIS_CHARSET@[#[trigger] spec_ais_index(frame, first_byte, k)] != '?'
}

/// `String::push`: appends one character to the string.
pub assume_specification[ String::push ](s: &mut String, c: char)
    ensures
        final(s)@ == old(s)@.push(c),
;

proof fn lemma_trim_start(s: Seq<char>, k: int)
    requires
        0 <= k <= s.len(),
        forall|i: int| 0 <= i < k ==> s[i] == ' ',
        k == s.len() || s[k] != ' ',
    ensures
        spec_trim_start(s) == s.subrange(k, s.len() as int),
    decreases k,
{
    if k == 0 {
        assert(s.subrange(0, s.len() as int) =~= s);
    } else {
        let t = s.drop_first();
        lemma_trim_start(t, k - 1);
        assert(t.subrange(k - 1, t.len() as int) =~= s.subrange(k, s.len() as int));
    }
}

proof fn lemma_trim_end(s: Seq<char>, k: int)
    requires
        0 <= k <= s.len(),
        forall|i: int| k <= i < s.len() ==> s[i] == ' ',
        k == 0 || s[k - 1] != ' ',
    ensures
        spec_trim_end(s) == s.subrange(0, k),
    decreases s.len() - k,
{
    if k == s.len() {
        assert(s.subrange(0, k) =~= s);
    } else {
        let t = s.drop_last();
        lemma_trim_end(t, k);
        assert(t.subrange(0, k) =~= s.subrange(0, k));
    }
}

/// Trimmed characters neither begin nor end with a space.
pub proof fn lemma_trimmed_has_no_outer_spaces(s: Seq<char>)
    ensures
        spec_trim_spaces(s).len() > 0 ==> spec_trim_spaces(s).first() != ' ' && spec_trim_spaces(
            s,
        ).last() != ' ',
        spec_trim_spaces(s).len() <= s.len(),
{
    lemma_trim_start_shape(s);
    lemma_trim_end_shape(spec_trim_start(s));
}

/// A callsign has at most eight characters and neither begins nor ends with
/// a space.
pub proof fn lemma_callsign_shape(frame: Seq<u8>, first_byte: int)
    ensures
        spec_callsign(frame, first_byte).len() <= 8,
        spec_callsign(frame, first_byte).len() > 0 ==> spec_callsign(frame, first_byte).first()
            != ' ' && spec_callsign(frame, first_byte).last() != ' ',
{
    lemma_trimmed_has_no_outer_spaces(spec_ais_chars(frame, first_byte));
}

proof fn lemma_trim_start_shape(s: Seq<char>)
    ensures
        spec_trim_start(s).len() <= s.len(),
        spec_trim_start(s).len() > 0 ==> spec_trim_start(s).first() != ' ',
    decreases s.len(),
{
    if s.len() > 0 && s.first() == ' ' {
        lemma_trim_start_shape(s.drop_first());
    }
}

proof fn lemma_trim_end_shape(s: Seq<char>)
    ensures
        spec_trim_end(s).len() <= s.len(),
        spec_trim_end(s).len() > 0 ==> spec_trim_end(s).last() != ' ' && spec_trim_end(s).first()
            == s.first(),
    decreases s.len(),
{
    if s.len() > 0 && s.last() == ' ' {
        lemma_trim_end_shape(s.drop_last());
    }
}

proof fn lemma_ais_bits(b0: u8, b1: u8, b2: u8, b3: u8, b4: u8, b5: u8, b6: u8, b7: u8, b8: u8)
    by (bit_vector)
    ensures
        (b0 >> 2) as u32 == cut(word(b0, b1, b2, b3), 26u32, 0x3fu32),
        (((b0 & 0x03) << 4) | (b1 >> 4)) as u32 == cut(word(b0, b1, b2, b3), 20u32, 0x3fu32),
        (((b1 & 0x0F) << 2) | (b2 >> 6)) as u32 == cut(word(b1, b2, b3, b4), 22u32, 0x3fu32),
        (b2 & 0x3F) as u32 == cut(word(b2, b3, b4, b5), 24u32, 0x3fu32),
        (b3 >> 2) as u32 == cut(word(b3, b4, b5, b6), 26u32, 0x3fu32),
        (((b3 & 0x03) << 4) | (b4 >> 4)) as u32 == cut(word(b3, b4, b5, b6), 20u32, 0x3fu32),
        (((b4 & 0x0F) << 2) | (b5 >> 6)) as u32 == cut(word(b4, b5, b6, b7), 22u32, 0x3fu32),
        (b5 & 0x3F) as u32 == cut(word(b5, b6, b7, b8), 24u32, 0x3fu32),
        cut(word(b0, b1, b2, b3), 26u32, 0x3fu32) < 64 && cut(word(b0, b1, b2, b3), 20u32, 0x3fu32) < 64 && cut(word(b1, b2, b3, b4), 22u32, 0x3fu32) < 64 && cut(word(b2, b3, b4, b5), 24u32, 0x3fu32) < 64,
        cut(word(b3, b4, b5, b6), 26u32, 0x3fu32) < 64 && cut(word(b3, b4, b5, b6), 20u32, 0x3fu32) < 64 && cut(word(b4, b5, b6, b7), 22u32, 0x3fu32) < 64 && cut(word(b5, b6, b7, b8), 24u32, 0x3fu32) < 64,
{
}

/// Reads the eight six-bit indices of the callsign field that starts at byte
/// `first_byte`.
#[verifier::rlimit(50)]
pub fn ais_indices(msg: &[u8], first_byte: usize) -> (indices: [u8; 8])
    requires
        first_byte + 6 <= msg@.len(),
    ensures
        forall|k: int| 0 <= k < 8 ==> #[trigger] indices@[k] as int == spec_ais_index(
            msg@,
            first_byte as int,
            k,
        ),
        forall|k: int| 0 <= k < 8 ==> #[trigger] indices@[k] < 64,
{
    let b0: u8 = msg[first_byte];
    let b1: u8 = msg[first_byte + 1];
    let b2: u8 = msg[first_byte + 2];
    let b3: u8 = msg[first_byte + 3];
    let b4: u8 = msg[first_byte + 4];
    let b5: u8 = msg[first_byte + 5];
    proof {
        lemma2_to64();
        let f = msg@;
        let fb = first_byte as int;
        lemma_ais_bits(
            b0,
            b1,
            b2,
            b3,
            b4,
            b5,
            byte_at(f, fb + 6),
            byte_at(f, fb + 7),
            byte_at(f, fb + 8),
        );
        assert(spec_ais_index(f, fb, 0) == (b0 >> 2) as int);
        assert(spec_ais_index(f, fb, 1) == (((b0 & 0x03) << 4) | (b1 >> 4)) as int);
        assert(spec_ais_index(f, fb, 2) == (((b1 & 0x0F) << 2) | (b2 >> 6)) as int);
        assert(spec_ais_index(f, fb, 3) == (b2 & 0x3F) as int);
        assert(spec_ais_index(f, fb, 4) == (b3 >> 2) as int);
        assert(spec_ais_index(f, fb, 5) == (((b3 & 0x03) << 4) | (b4 >> 4)) as int);
        assert(spec_ais_index(f, fb, 6) == (((b4 & 0x0F) << 2) | (b5 >> 6)) as int);
        assert(spec_ais_index(f, fb, 7) == (b5 & 0x3F) as int);
    }
    [
        b0 >> 2,
        ((b0 & 0x03) << 4) | (b1 >> 4),
        ((b1 & 0x0F) << 2) | (b2 >> 6),
        b2 & 0x3F,
        b3 >> 2,
        ((b3 & 0x03) << 4) | (b4 >> 4),
        ((b4 & 0x0F) << 2) | (b5 >> 6),
        b5 & 0x3F,
    ]
}

/// Builds a string of the characters without their leading and trailing
/// spaces.
pub fn trimmed_string(chars: &[char]) -> (s: String)
    ensures
        s@ == spec_trim_spaces(chars@),
{
    let len: usize = chars.len();
    let mut start: usize = 0;
    while start < len && chars[start] == ' '
        invariant
            len == chars@.len(),
            start <= len,
            forall|i: int| 0 <= i < start ==> chars@[i] == ' ',
        decreases len - start,
    {
        start += 1;
    }
    let mut end: usize = len;
    while end > start && chars[end - 1] == ' '
        invariant
            len == chars@.len(),
            start <= end <= len,
            forall|i: int| end <= i < len ==> chars@[i] == ' ',
        decreases end,
    {
        end -= 1;
    }
    proof {
        lemma_trim_start(chars@, start as int);
        let t = chars@.subrange(start as int, len as int);
        lemma_trim_end(t, end - start);
        assert(t.subrange(0, end - start) =~= chars@.subrange(start as int, end as int));
    }
    let mut s = String::new();
    let mut k: usize = start;
    while k < end
        invariant
            len == chars@.len(),
            start <= k <= end <= len,
            s@ == chars@.subrange(start as int, k as int),
        decreases end - k,
    {
        s.push(chars[k]);
        assert(chars@.subrange(start as int, k as int + 1) =~= chars@.subrange(
            start as int,
            k as int,
        ).push(chars@[k as int]));
        k += 1;
    }
    s
}

/// Decodes the callsign field that starts at byte `first_byte`: looks its
/// eight indices up in the AIS character set and strips the spaces around
/// them. An index without a character gives a question mark.
pub fn decode_callsign(msg: &[u8], first_byte: usize) -> (callsign: String)
    requires
        first_byte + 6 <= msg@.len(),
    ensures
        callsign@ == spec_callsign(msg@, first_byte as int),
        callsign@.len() <= 8,
        callsign@.len() > 0 ==> callsign@.first() != ' ' && callsign@.last() != ' ',
{
    proof {
        lemma_callsign_shape(msg@, first_byte as int);
    }
    let indices = ais_indices(msg, first_byte);
    let mut chars: [char; 8] = [' ', ' ', ' ', ' ', ' ', ' ', ' ', ' '];
    let mut k: usize = 0;
    while k < CALLSIGN_LEN
        invariant
            k <= 8,
            forall|i: int| 0 <= i < 8 ==> #[trigger] indices@[i] < 64,
            forall|i: int| 0 <= i < k ==> #[trigger] chars@[i] == AIS_CHARSET@[indices@[i] as int],
        decreases 8 - k,
    {
        chars[k] = AIS_CHARSET[indices[k] as usize];
        k += 1;
    }
    assert(chars@ =~= spec_ais_chars(msg@, first_byte as int));
    trimmed_string(&chars)
}

} // verus!
