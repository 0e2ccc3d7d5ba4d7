use vstd::prelude::*;
use p3_baby_bear::BabyBear;
use p3_field::{PrimeCharacteristicRing, PrimeField32};

verus! {

/// The order of the BabyBear prime field, `15 * 2^27 + 1`.
pub const BABY_BEAR_ORDER: u32 = 0x7800_0001;

/// Relies on `BabyBear::from_u32` followed by `as_canonical_u32`: the integer
/// is mapped to its residue class, whose canonical representative is read back.
#[verifier::external_body]
fn reduce_to_field(n: u32) -> (r: u32)
    ensures
        r == n % BABY_BEAR_ORDER,
{
    BabyBear::from_u32(n).as_canonical_u32()
}

/// An element of the BabyBear field, held as its canonical representative.
#[derive(Clone, Copy, Debug, PartialEq, Eq)]
pub struct Felt {
    canonical: u32,
}

impl Felt {
    /// The canonical representative of this element, in `[0, BABY_BEAR_ORDER)`.
    pub closed spec fn value(self) -> nat {
        self.canonical as nat
    }

    #[verifier::type_invariant]
    spec fn is_canonical(self) -> bool {
        self.canonical < BABY_BEAR_ORDER
    }

    /// The additive identity.
    pub fn zero() -> (r: Felt)
        ensures
            r.value() == 0,
    {
        Felt { canonical: 0 }
    }

    /// The field element of the integer `n`, that is, `n` reduced modulo the order.
    pub fn from_u32(n: u32) -> (r: Felt)
        ensures
            r.value() == n % BABY_BEAR_ORDER,
    {
        let c = reduce_to_field(n);
        Felt { canonical: c }
    }

    /// The field element of a byte.
    pub fn from_u8(b: u8) -> (r: Felt)
        ensures
            r.value() == b,
    {
        Felt { canonical: b as u32 }
    }

    /// The canonical representative of this element.
    pub fn as_canonical_u32(&self) -> (r: u32)
        ensures
            r == self.value(),
            r < BABY_BEAR_ORDER,
    {
        proof {
            use_type_invariant(self);
        }
        self.canonical
    }
}

} // verus!
