//! The addition relation as a single-row trace plus an AIR.
//!
//! The trace is the one row `[a, b, c]`; the AIR binds the claimed sum to
//! the first row and forces `a + b = c` in the field.

use vstd::prelude::*;

use crate::field::{fadd, Fp, FIELD_ORDER};
use crate::trace::{PublicInputs, Row, Trace, WIDTH};

verus! {

/// All constraints of the addition AIR: the claimed sum `pis[0]` is bound
/// to the third cell of the first row, and the first row sums correctly in
/// the field.
pub open spec fn add_constraints_hold(t: Seq<Seq<int>>, pis: Seq<int>) -> bool {
    &&& t.len() >= 1
    &&& t[0][2] == pis[0]
    &&& fadd(t[0][0], t[0][1]) == t[0][2]
}

/// The addition AIR over a trace of width three.
#[derive(Clone, Copy, Debug)]
pub struct AddAir;

impl AddAir {
    /// Row width of this AIR.
    pub fn width(&self) -> (w: usize)
        ensures
            w == WIDTH,
    {
        WIDTH
    }

    /// Evaluates every constraint of this AIR on concrete trace cells:
    /// returns whether the trace is a valid witness under the given public
    /// inputs. This is the rule the proving backend forces to zero.
    pub fn eval(&self, trace: &Trace, pis: &PublicInputs) -> (ok: bool)
        requires
            trace.wf(),
            trace@.len() >= 1,
            pis@.len() >= 1,
            pis.wf(),
        ensures
            ok == add_constraints_hold(trace@, pis@),
    {
        let first = trace.row(0);
        let p0 = pis.get(0);
        if first.c2.as_canonical_u64() != p0.as_canonical_u64() {
            return false;
        }
        let sum = first.c0.add(&first.c1);
        sum.as_canonical_u64() == first.c2.as_canonical_u64()
    }
}

/// Builds the single-row trace `[a, b, c]`; a height of one is already a
/// power of two, so no padding is needed.
pub fn gen_trace(a: u64, b: u64, c: u64) -> (t: Trace)
    ensures
        t@ == seq![
            seq![
                a as int % (FIELD_ORDER as int),
                b as int % (FIELD_ORDER as int),
                c as int % (FIELD_ORDER as int),
            ],
        ],
        t.wf(),
{
    let mut rows: Vec<Row> = Vec::new();
    rows.push(
        Row {
            c0: Fp::from_u64(a),
            c1: Fp::from_u64(b),
            c2: Fp::from_u64(c),
        },
    );
    let t = Trace::new(rows);
    proof {
        assert(t@ =~= seq![
            seq![
                a as int % (FIELD_ORDER as int),
                b as int % (FIELD_ORDER as int),
                c as int % (FIELD_ORDER as int),
            ],
        ]);
    }
    t
}

/// Relation entry point: the trace and public inputs for the claim
/// "`a` plus `b` is this sum", with the sum computed in the field, ready
/// for the proving backend.
pub fn add_witness(a: u64, b: u64) -> (w: (Trace, PublicInputs))
    ensures
        w.0@ == seq![
            seq![
                a as int % (FIELD_ORDER as int),
                b as int % (FIELD_ORDER as int),
                fadd(a as int % (FIELD_ORDER as int), b as int % (FIELD_ORDER as int)),
            ],
        ],
        w.0.wf(),
        w.1@ == seq![fadd(a as int % (FIELD_ORDER as int), b as int % (FIELD_ORDER as int))],
        w.1.wf(),
{
    let fa = Fp::from_u64(a);
    let fb = Fp::from_u64(b);
    let fc = fa.add(&fb);
    let mut rows: Vec<Row> = Vec::new();
    rows.push(Row { c0: fa, c1: fb, c2: fc });
    let t = Trace::new(rows);
    let mut values: Vec<Fp> = Vec::new();
    values.push(fc);
    let pis = PublicInputs::new(values);
    proof {
        assert(t@ =~= seq![seq![fa@, fb@, fc@]]);
        assert(pis@ =~= seq![fc@]);
    }
    (t, pis)
}

/// The generated witness is valid: for all canonical `a` and `b`, the
/// single-row trace `[a, b, a + b]` satisfies every constraint of the
/// addition AIR under the public input `a + b`, the sum taken in the field.
pub proof fn lemma_add_witness_satisfies_air(a: int, b: int)
    requires
        0 <= a < FIELD_ORDER,
        0 <= b < FIELD_ORDER,
    ensures
        add_constraints_hold(seq![seq![a, b, fadd(a, b)]], seq![fadd(a, b)]),
{
}

/// A wrong claim is rejected: if the trace cell `c` is not the field sum of
/// `a` and `b`, or the public input differs from `c`, some constraint of
/// the addition AIR fails.
pub proof fn lemma_add_rejects_wrong_claim(a: int, b: int, c: int, p: int)
    requires
        0 <= a < FIELD_ORDER,
        0 <= b < FIELD_ORDER,
        0 <= c < FIELD_ORDER,
        0 <= p < FIELD_ORDER,
        c != fadd(a, b) || p != c,
    ensures
        !add_constraints_hold(seq![seq![a, b, c]], seq![p]),
{
}

} // verus!
