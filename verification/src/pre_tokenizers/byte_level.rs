//! The byte-level alphabet: a fixed bijection from every byte value to a
//! printable character. Printable bytes map to themselves; the rest map,
//! in order, to code points from 256 up, so no mapped character collides
//! with a printable byte.

use vstd::prelude::*;

verus! {

/// Marks every byte to a dedicated printable character; with
/// `add_prefix_space`, a space is prepended to the text before mapping.
#[derive(Debug, Clone, Copy, PartialEq, Eq, Structural)]
pub struct ByteLevel {
    pub add_prefix_space: bool,
}

/// The bytes that map to themselves: the printable range, less the
/// characters that byte-level texts reserve.
pub open spec fn byte_printable(b: int) -> bool {
    ||| (0x21 <= b && b <= 0x7E)
    ||| (0xA1 <= b && b <= 0xAC)
    ||| (0xAE <= b && b <= 0xFF)
}

/// How many non-printable byte values lie below `b`.
pub open spec fn nonprintable_before(b: int) -> int
    decreases b,
{
    if b <= 0 {
        0
    } else {
        nonprintable_before(b - 1) + if byte_printable(b - 1) {
            0int
        } else {
            1int
        }
    }
}

/// The code point byte `b` maps to.
pub open spec fn byte_char_code(b: int) -> int {
    if byte_printable(b) {
        b
    } else {
        256 + nonprintable_before(b)
    }
}

/// The count of non-printable bytes never decreases.
proof fn lemma_nonprintable_mono(a: int, b: int)
    requires
        0 <= a <= b,
    ensures
        nonprintable_before(a) <= nonprintable_before(b),
        nonprintable_before(a) >= 0,
    decreases b - a,
{
    if a < b {
        lemma_nonprintable_mono(a, b - 1);
    } else {
        lemma_nonprintable_nonneg(a);
    }
}

proof fn lemma_nonprintable_nonneg(b: int)
    ensures
        nonprintable_before(b) >= 0,
    decreases b,
{
    if b > 0 {
        lemma_nonprintable_nonneg(b - 1);
    }
}

/// The byte-to-character map is a bijection: distinct bytes map to
/// distinct code points.
pub proof fn lemma_byte_alphabet_injective(b1: int, b2: int)
    requires
        0 <= b1 < b2 < 256,
    ensures
        byte_char_code(b1) != byte_char_code(b2),
{
    lemma_nonprintable_nonneg(b1);
    lemma_nonprintable_nonneg(b2);
    if !byte_printable(b1) && !byte_printable(b2) {
        lemma_nonprintable_mono(b1 + 1, b2);
        assert(nonprintable_before(b1 + 1) == nonprintable_before(b1) + 1);
    }
}

/// Relies on `char::from_u32`: the character with the given Unicode
/// scalar value.
#[verifier::external_body]
fn char_of_code(u: u32) -> (r: char)
    requires
        u < 0xD800,
    ensures
        r as u32 == u,
{
    char::from_u32(u).unwrap_or(' ')
}

impl ByteLevel {
    /// The mapper, with the prefix space switched on.
    pub fn new() -> (r: ByteLevel)
        ensures
            r.add_prefix_space == true,
    {
        ByteLevel { add_prefix_space: true }
    }

    /// The mapper with the prefix-space flag replaced.
    pub fn add_prefix_space(self, v: bool) -> (r: ByteLevel)
        ensures
            r.add_prefix_space == v,
    {
        ByteLevel { add_prefix_space: v }
    }

    /// The 256 characters the byte values map to, in byte order.
    pub fn alphabet() -> (r: Vec<char>)
        ensures
            r@.len() == 256,
            forall|b: int| 0 <= b < 256 ==> (#[trigger] r@[b]) as u32 == byte_char_code(b),
    {
        let mut r: Vec<char> = Vec::new();
        let mut count: u32 = 0;
        let mut b: u32 = 0;
        while b < 256
            invariant
                b <= 256,
                r@.len() == b,
                count == nonprintable_before(b as int),
                count <= b,
                forall|k: int| 0 <= k < b ==> (#[trigger] r@[k]) as u32 == byte_char_code(k),
            decreases 256 - b,
        {
            let printable = (0x21 <= b && b <= 0x7E) || (0xA1 <= b && b <= 0xAC) || (0xAE <= b
                && b <= 0xFF);
            if printable {
                r.push(char_of_code(b));
            } else {
                r.push(char_of_code(256 + count));
                count = count + 1;
            }
            b = b + 1;
        }
        r
    }
}

impl Default for ByteLevel {
    /// The conventional configuration: a prefix space is added.
    fn default() -> (r: ByteLevel)
        ensures
            r.add_prefix_space == true,
    {
        ByteLevel { add_prefix_space: true }
    }
}

} // verus!
