//! Elements of the Stark field, held as plain integers.
use vstd::prelude::*;

verus! {

/// The order of the Stark field: `2^251 + 17 * 2^192 + 1`.
pub open spec fn field_order() -> int {
    0x800000000000011000000000000000000000000000000000000000000000001int
}

/// `2^128`: what one unit of the high half of an element is worth.
pub open spec fn half_base() -> int {
    0x100000000000000000000000000000000int
}

/// The high half of the field order; its low half is 1.
pub const ORDER_HIGH: u128 = 0x8000000000000110000000000000000;

/// An element of the Stark field. Contract addresses, class hashes, selectors and
/// the words of a Cairo byte array are all of this type.
#[derive(Clone, Copy, Debug, PartialEq, Eq, PartialOrd, Ord, Hash, Structural)]
pub struct Felt {
    pub(crate) high: u128,
    pub(crate) low: u128,
}

/// The number that an element stands for, from 0 up to the field order.
impl View for Felt {
    type V = int;

    closed spec fn view(&self) -> int {
        self.high * half_base() + self.low
    }
}

impl Felt {
    /// Every element is below the field order.
    #[verifier::type_invariant]
    spec fn in_field(self) -> bool {
        self@ < field_order()
    }

    /// The element 0.
    pub fn zero() -> (r: Felt)
        ensures
            r == felt(0),
            r@ == 0,
    {
        Felt { high: 0, low: 0 }
    }

    /// The element that holds a 128-bit number.
    pub fn from_u128(value: u128) -> (r: Felt)
        ensures
            r == felt(value as int),
            r@ == value,
    {
        Felt { high: 0, low: value }
    }

    /// The element `high * 2^128 + low`; `None` where that is not below the field order.
    pub fn from_halves(high: u128, low: u128) -> (r: Option<Felt>)
        ensures
            match r {
                Some(f) => f@ == high * half_base() + low && f@ < field_order(),
                None => high * half_base() + low >= field_order(),
            },
    {
        if high < ORDER_HIGH || (high == ORDER_HIGH && low == 0) {
            Some(Felt { high, low })
        } else {
            None
        }
    }

    /// The two 128-bit halves of the element, the high one first.
    pub fn halves(&self) -> (r: (u128, u128))
        ensures
            self@ == r.0 * half_base() + r.1,
            self@ < field_order(),
    {
        proof {
            use_type_invariant(self);
        }
        (self.high, self.low)
    }

    /// Whether this element, as a number, is below the other.
    pub fn is_below(&self, other: &Felt) -> (r: bool)
        ensures
            r == (self@ < other@),
    {
        self.high < other.high || (self.high == other.high && self.low < other.low)
    }
}

/// The element that stands for a number.
pub closed spec fn felt(number: int) -> Felt {
    Felt { high: (number / half_base()) as u128, low: (number % half_base()) as u128 }
}

/// [`felt`] undoes the view, and the view undoes [`felt`] on every number of 256 bits.
pub proof fn lemma_felt_of_number(f: Felt, number: int)
    ensures
        felt(f@) == f,
        0 <= number < half_base() * half_base() ==> felt(number)@ == number,
{
    assert(f@ / half_base() == f.high && f@ % half_base() == f.low);
    if 0 <= number < half_base() * half_base() {
        assert(0 <= number / half_base() < half_base());
    }
}

/// No element stands for a negative number.
pub proof fn lemma_felt_is_not_negative(f: Felt)
    ensures
        f@ >= 0,
{
}

/// An element is fixed by the number it stands for.
pub proof fn lemma_felt_is_its_number(a: Felt, b: Felt)
    ensures
        a@ == b@ <==> a == b,
{
}

} // verus!
