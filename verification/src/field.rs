//! The scalar type used for every trace cell: an element of the prime field
//! of order `FIELD_ORDER` (the BabyBear prime `2^31 - 2^27 + 1`), kept in
//! canonical form.

use vstd::prelude::*;

verus! {

/// Order of the prime field; every canonical representative lies in
/// `[0, FIELD_ORDER)`.
pub const FIELD_ORDER: u64 = 2013265921;

/// Field addition on canonical representatives, as a mathematical function.
pub open spec fn fadd(a: int, b: int) -> int {
    (a + b) % (FIELD_ORDER as int)
}

/// Field multiplication on canonical representatives, as a mathematical
/// function.
pub open spec fn fmul(a: int, b: int) -> int {
    (a * b) % (FIELD_ORDER as int)
}

/// A field element. The view of a value is its canonical representative as a
/// mathematical integer.
#[derive(Clone, Copy, Debug, PartialEq, Eq, Structural)]
pub struct Fp {
    value: u64,
}

impl View for Fp {
    type V = int;

    closed spec fn view(&self) -> int {
        self.value as int
    }
}

impl Fp {
    /// The element is in canonical form.
    pub open spec fn inv(&self) -> bool {
        0 <= self@ < FIELD_ORDER
    }

    /// Embeds an integer into the field by reduction modulo the field order.
    pub fn from_u64(x: u64) -> (r: Fp)
        ensures
            r.inv(),
            r@ == x as int % (FIELD_ORDER as int),
    {
        Fp { value: x % FIELD_ORDER }
    }

    /// The canonical representative, recovered as a machine integer.
    pub fn as_canonical_u64(&self) -> (r: u64)
        ensures
            r as int == self@,
    {
        self.value
    }

    /// Field addition.
    pub fn add(&self, other: &Fp) -> (r: Fp)
        requires
            self.inv(),
            other.inv(),
        ensures
            r.inv(),
            r@ == fadd(self@, other@),
    {
        Fp { value: (self.value + other.value) % FIELD_ORDER }
    }

    /// Field multiplication.
    pub fn mul(&self, other: &Fp) -> (r: Fp)
        requires
            self.inv(),
            other.inv(),
        ensures
            r.inv(),
            r@ == fmul(self@, other@),
    {
        proof {
            assert(self.value * other.value < 0x4000000000000000) by (nonlinear_arith)
                requires
                    self.value < FIELD_ORDER,
                    other.value < FIELD_ORDER,
            ;
        }
        Fp { value: (self.value * other.value) % FIELD_ORDER }
    }
}

} // verus!
