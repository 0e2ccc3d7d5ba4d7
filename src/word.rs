use vstd::prelude::*;
use crate::field::Felt;

verus! {

/// The number of bytes, and so of field elements, in one word.
pub const WORD_SIZE: usize = 4;

/// The weight of the byte at position `i` of a little-endian word.
pub open spec fn byte_weight(i: int) -> nat {
    if i == 0 {
        1
    } else if i == 1 {
        256
    } else if i == 2 {
        65536
    } else {
        16777216
    }
}

/// The byte at position `i` (least significant first) of `n`.
pub open spec fn le_byte(n: u32, i: int) -> nat {
    (n as nat / byte_weight(i)) % 256
}

/// A 32-bit value decomposed into its little-endian bytes, one per element.
#[derive(Clone, Copy, Debug, PartialEq, Eq)]
pub struct Word<T>(pub [T; WORD_SIZE]);

impl Word<Felt> {
    /// The integer whose little-endian bytes are the values of this word's elements.
    pub open spec fn merged(self) -> nat {
        self.0@[0].value() + 256 * self.0@[1].value() + 65536 * self.0@[2].value()
            + 16777216 * self.0@[3].value()
    }

    /// Decomposes `n` into four elements, each holding one byte, least significant first.
    pub fn from_u32(n: u32) -> (r: Word<Felt>)
        ensures
            forall|j: int| 0 <= j < WORD_SIZE ==> #[trigger] r.0@[j].value() == le_byte(n, j),
    {
        let b0 = Felt::from_u8((n % 256) as u8);
        let b1 = Felt::from_u8(((n / 256) % 256) as u8);
        let b2 = Felt::from_u8(((n / 65536) % 256) as u8);
        let b3 = Felt::from_u8(((n / 16777216) % 256) as u8);
        let r = Word([b0, b1, b2, b3]);
        assert(r.0@[0].value() == le_byte(n, 0));
        assert(r.0@[1].value() == le_byte(n, 1));
        assert(r.0@[2].value() == le_byte(n, 2));
        assert(r.0@[3].value() == le_byte(n, 3));
        r
    }
}

/// Merging the bytes of a decomposed word gives the word back.
pub proof fn lemma_merge_le_bytes(n: u32)
    ensures
        le_byte(n, 0) + 256 * le_byte(n, 1) + 65536 * le_byte(n, 2) + 16777216 * le_byte(n, 3)
            == n,
{
    let x = n as nat;
    assert(x / 65536 == (x / 256) / 256);
    assert(x / 16777216 == (x / 65536) / 256);
}

} // verus!
