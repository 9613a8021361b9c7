//! The multiplication relation as a single-row trace plus an AIR.
//!
//! The trace is the one row `[a, b, c]` with a caller-supplied product `c`;
//! the AIR, not the trace generator, is what enforces `a * b = c` in the
//! field, so a mismatched `c` is representable and is rejected at
//! constraint-checking time.

use vstd::prelude::*;

use crate::field::{fmul, Fp, FIELD_ORDER};
use crate::trace::{PublicInputs, Row, Trace, WIDTH};

verus! {

/// All constraints of the multiplication AIR: the claimed product `pis[0]`
/// is bound to the third cell of the first row, and the first row
/// multiplies correctly in the field.
pub open spec fn mul_constraints_hold(t: Seq<Seq<int>>, pis: Seq<int>) -> bool {
    &&& t.len() >= 1
    &&& t[0][2] == pis[0]
    &&& fmul(t[0][0], t[0][1]) == t[0][2]
}

/// The multiplication AIR over a trace of width three.
#[derive(Clone, Copy, Debug)]
pub struct MulAir;

impl MulAir {
    /// Row width of this AIR.
    pub fn width(&self) -> (w: usize)
        ensures
            w == WIDTH,
    {
        WIDTH
    }

    /// Evaluates every constraint of this AIR on concrete trace cells:
    /// returns whether the trace is a valid witness under the given public
    /// inputs. This is the rule the proving backend forces to zero.
    pub fn eval(&self, trace: &Trace, pis: &PublicInputs) -> (ok: bool)
        requires
            trace.wf(),
            trace@.len() >= 1,
            pis@.len() >= 1,
            pis.wf(),
        ensures
            ok == mul_constraints_hold(trace@, pis@),
    {
        let first = trace.row(0);
        let p0 = pis.get(0);
        if first.c2.as_canonical_u64() != p0.as_canonical_u64() {
            return false;
        }
        let product = first.c0.mul(&first.c1);
        product.as_canonical_u64() == first.c2.as_canonical_u64()
    }
}

/// Builds the single-row trace `[a, b, c]` with the caller-supplied
/// product; a height of one is already a power of two, so no padding is
/// needed.
pub fn gen_trace(a: u64, b: u64, c: u64) -> (t: Trace)
    ensures
        t@ == seq![
            seq![
                a as int % (FIELD_ORDER as int),
                b as int % (FIELD_ORDER as int),
                c as int % (FIELD_ORDER as int),
            ],
        ],
        t.wf(),
{
    let mut rows: Vec<Row> = Vec::new();
    rows.push(
        Row {
            c0: Fp::from_u64(a),
            c1: Fp::from_u64(b),
            c2: Fp::from_u64(c),
        },
    );
    let t = Trace::new(rows);
    proof {
        assert(t@ =~= seq![
            seq![
                a as int % (FIELD_ORDER as int),
                b as int % (FIELD_ORDER as int),
                c as int % (FIELD_ORDER as int),
            ],
        ]);
    }
    t
}

/// Relation entry point: the trace and public inputs for the claim
/// "`a` times `b` is `c`", with `c` supplied by the caller, ready for the
/// proving backend.
pub fn mul_witness(a: u64, b: u64, c: u64) -> (w: (Trace, PublicInputs))
    ensures
        w.0@ == seq![
            seq![
                a as int % (FIELD_ORDER as int),
                b as int % (FIELD_ORDER as int),
                c as int % (FIELD_ORDER as int),
            ],
        ],
        w.0.wf(),
        w.1@ == seq![c as int % (FIELD_ORDER as int)],
        w.1.wf(),
{
    let t = gen_trace(a, b, c);
    let mut values: Vec<Fp> = Vec::new();
    values.push(Fp::from_u64(c));
    let pis = PublicInputs::new(values);
    proof {
        assert(pis@ =~= seq![c as int % (FIELD_ORDER as int)]);
    }
    (t, pis)
}

/// The generated witness is valid: for all canonical `a` and `b`, the
/// single-row trace `[a, b, a * b]` satisfies every constraint of the
/// multiplication AIR under the public input `a * b`, the product taken in
/// the field.
pub proof fn lemma_mul_witness_satisfies_air(a: int, b: int)
    requires
        0 <= a < FIELD_ORDER,
        0 <= b < FIELD_ORDER,
    ensures
        mul_constraints_hold(seq![seq![a, b, fmul(a, b)]], seq![fmul(a, b)]),
{
}

/// A wrong claim is rejected: if the trace cell `c` is not the field
/// product of `a` and `b`, or the public input differs from `c`, some
/// constraint of the multiplication AIR fails.
pub proof fn lemma_mul_rejects_wrong_claim(a: int, b: int, c: int, p: int)
    requires
        0 <= a < FIELD_ORDER,
        0 <= b < FIELD_ORDER,
        0 <= c < FIELD_ORDER,
        0 <= p < FIELD_ORDER,
        c != fmul(a, b) || p != c,
    ensures
        !mul_constraints_hold(seq![seq![a, b, c]], seq![p]),
{
}

} // verus!
