//! Rows, traces and public inputs.
//!
//! A trace is a rectangular table of field elements, stored row-major; its
//! height must be a power of two (a hard backend requirement). Public inputs
//! are an ordered sequence of field elements bound to trace cells by the
//! constraint rule.

use vstd::prelude::*;

use crate::field::{Fp, FIELD_ORDER};

verus! {

/// Row width shared by every relation in this crate.
pub const WIDTH: usize = 3;

/// A fixed-width row of field elements. The view is the sequence of the
/// three canonical representatives.
#[derive(Clone, Copy, Debug, PartialEq, Eq, Structural)]
pub struct Row {
    pub c0: Fp,
    pub c1: Fp,
    pub c2: Fp,
}

impl View for Row {
    type V = Seq<int>;

    open spec fn view(&self) -> Seq<int> {
        seq![self.c0@, self.c1@, self.c2@]
    }
}

/// A row viewed as a sequence is three canonical field values.
pub open spec fn row_wf(r: Seq<int>) -> bool {
    &&& r.len() == WIDTH
    &&& forall|j: int| 0 <= j < r.len() ==> 0 <= #[trigger] r[j] < FIELD_ORDER
}

/// `n` is a power of two.
pub open spec fn is_pow2(n: nat) -> bool
    decreases n,
{
    if n == 0 {
        false
    } else if n == 1 {
        true
    } else {
        n % 2 == 0 && is_pow2(n / 2)
    }
}

/// The least power of two that is at least `m` (for `m >= 1`).
pub open spec fn next_pow2(m: nat) -> nat
    decreases m,
{
    if m <= 1 {
        1
    } else {
        2 * next_pow2((m + 1) / 2)
    }
}

pub proof fn lemma_next_pow2_bounds(m: nat)
    requires
        m >= 1,
    ensures
        is_pow2(next_pow2(m)),
        next_pow2(m) >= m,
        next_pow2(m) < 2 * m,
    decreases m,
{
    if m >= 2 {
        let h = ((m + 1) / 2) as nat;
        lemma_next_pow2_bounds(h);
        let p = next_pow2(h);
        assert(is_pow2(2 * p));
        if m % 2 == 1 {
            if p == m {
                // a power of two above 1 is even, but m is odd
                assert(false);
            }
        }
    }
}

/// Distinct powers of two differ by at least a factor of two.
pub proof fn lemma_pow2_ordering(p: nat, q: nat)
    requires
        is_pow2(p),
        is_pow2(q),
        p < q,
    ensures
        2 * p <= q,
    decreases p,
{
    if p > 1 {
        lemma_pow2_ordering(p / 2, q / 2);
    }
}

/// At most one power of two lies in `[m, 2m)`.
pub proof fn lemma_pow2_unique_in_range(p: nat, q: nat, m: nat)
    requires
        is_pow2(p),
        is_pow2(q),
        m <= p < 2 * m,
        m <= q < 2 * m,
    ensures
        p == q,
{
    if p < q {
        lemma_pow2_ordering(p, q);
    } else if q < p {
        lemma_pow2_ordering(q, p);
    }
}

/// Computes `next_pow2(m)`.
pub fn next_pow2_exec(m: usize) -> (p: usize)
    requires
        1 <= m <= 0x40000000,
    ensures
        p as nat == next_pow2(m as nat),
{
    let mut p: usize = 1;
    while p < m
        invariant
            1 <= p,
            is_pow2(p as nat),
            m <= 0x40000000,
            p == 1 || p < 2 * m,
        decreases 2 * m - p,
    {
        p = p * 2;
    }
    proof {
        lemma_next_pow2_bounds(m as nat);
        lemma_pow2_unique_in_range(p as nat, next_pow2(m as nat), m as nat);
    }
    p
}

/// The execution witness table. The view is the sequence of row views.
#[derive(Clone, Debug, PartialEq, Eq)]
pub struct Trace {
    rows: Vec<Row>,
}

impl View for Trace {
    type V = Seq<Seq<int>>;

    closed spec fn view(&self) -> Seq<Seq<int>> {
        self.rows@.map(|i: int, r: Row| r@)
    }
}

impl Trace {
    /// The trace is rectangular of width `WIDTH`, its height is a power of
    /// two, and every cell is canonical.
    pub open spec fn wf(&self) -> bool {
        &&& is_pow2(self@.len())
        &&& forall|i: int| 0 <= i < self@.len() ==> row_wf(#[trigger] self@[i])
    }

    /// Wraps rows whose count is already a power of two; supplying any other
    /// height directly is a caller contract violation.
    pub fn new(rows: Vec<Row>) -> (t: Trace)
        requires
            is_pow2(rows@.len() as nat),
        ensures
            t@.len() == rows@.len(),
            forall|i: int| 0 <= i < rows@.len() ==> #[trigger] t@[i] == rows@[i]@,
    {
        Trace { rows }
    }

    /// Number of rows.
    pub fn height(&self) -> (h: usize)
        ensures
            h == self@.len(),
    {
        self.rows.len()
    }

    /// Row width.
    pub fn width(&self) -> (w: usize)
        ensures
            w == WIDTH,
    {
        WIDTH
    }

    /// The row at index `i`.
    pub fn row(&self, i: usize) -> (r: Row)
        requires
            i < self@.len(),
        ensures
            r@ == self@[i as int],
    {
        self.rows[i]
    }
}

/// The ordered sequence of values disclosed to the verifier. The view is the
/// sequence of canonical representatives.
#[derive(Clone, Debug, PartialEq, Eq)]
pub struct PublicInputs {
    values: Vec<Fp>,
}

impl View for PublicInputs {
    type V = Seq<int>;

    closed spec fn view(&self) -> Seq<int> {
        self.values@.map(|i: int, f: Fp| f@)
    }
}

impl PublicInputs {
    /// Every disclosed value is canonical.
    pub open spec fn wf(&self) -> bool {
        forall|i: int| 0 <= i < self@.len() ==> 0 <= #[trigger] self@[i] < FIELD_ORDER
    }

    pub fn new(values: Vec<Fp>) -> (p: PublicInputs)
        ensures
            p@.len() == values@.len(),
            forall|i: int| 0 <= i < values@.len() ==> #[trigger] p@[i] == values@[i]@,
    {
        PublicInputs { values }
    }

    /// Number of disclosed values.
    pub fn len(&self) -> (n: usize)
        ensures
            n == self@.len(),
    {
        self.values.len()
    }

    /// The value at index `i`.
    pub fn get(&self, i: usize) -> (f: Fp)
        requires
            i < self@.len(),
        ensures
            f@ == self@[i as int],
    {
        self.values[i]
    }
}

} // verus!
