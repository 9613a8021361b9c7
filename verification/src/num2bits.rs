//! Bit decomposition of an integer as a trace plus an AIR.
//!
//! The trace encodes the recursion `n -> (n / 2, n % 2)` least-significant
//! bit first: row `i` is `[n_i, n_i / 2, n_i % 2]` with `n_0 = n`, down to
//! the all-zero terminal row, then padded with zero rows to the next power
//! of two. The AIR binds the claimed integer to the first row, forces the
//! halving identity and column continuity on every transition, and forces
//! the all-zero terminal state on the last row.

use vstd::arithmetic::power2::{lemma2_to64, lemma_pow2_unfold, pow2};
use vstd::prelude::*;

use crate::field::{fadd, fmul, Fp, FIELD_ORDER};
use crate::trace::{
    is_pow2, lemma_next_pow2_bounds, next_pow2, next_pow2_exec, row_wf, PublicInputs, Row, Trace,
    WIDTH,
};

verus! {

/// Number of halving steps needed to bring `n` to zero.
pub open spec fn n2b_steps(n: nat) -> nat
    decreases n,
{
    if n == 0 {
        0
    } else {
        1 + n2b_steps(n / 2)
    }
}

/// The state after `i` halving steps starting from `n`.
pub open spec fn shift_down(n: nat, i: nat) -> nat
    decreases i,
{
    if i == 0 {
        n
    } else {
        shift_down(n, (i - 1) as nat) / 2
    }
}

/// Row `i` of the (padded) bit-decomposition trace of `n`.
pub open spec fn n2b_row(n: nat, i: nat) -> Seq<int> {
    seq![
        shift_down(n, i) as int,
        (shift_down(n, i) / 2) as int,
        (shift_down(n, i) % 2) as int,
    ]
}

/// The full bit-decomposition trace of `n`: one row per halving step, the
/// terminal zero row, and zero padding up to the next power of two.
pub open spec fn n2b_trace(n: nat) -> Seq<Seq<int>> {
    Seq::new(next_pow2(n2b_steps(n) + 1), |i: int| n2b_row(n, i as nat))
}

/// Transition rule between consecutive rows: the halving identity and the
/// continuity of the halved column, both as field equations.
pub open spec fn n2b_transition_ok(cur: Seq<int>, nxt: Seq<int>) -> bool {
    &&& fadd(fmul(nxt[0], 2), cur[2]) == cur[0]
    &&& nxt[0] == cur[1]
}

/// Terminal rule: the last row is the all-zero state.
pub open spec fn n2b_last_row_ok(row: Seq<int>) -> bool {
    &&& row[0] == 0
    &&& row[1] == 0
    &&& row[2] == 0
}

/// All constraints of the bit-decomposition AIR: the first row is bound to
/// the claimed integer `pis[0]`, every pair of consecutive rows satisfies
/// the transition rule, and the last row is terminal.
pub open spec fn n2b_constraints_hold(t: Seq<Seq<int>>, pis: Seq<int>) -> bool {
    &&& t.len() >= 1
    &&& t[0][0] == pis[0]
    &&& forall|i: int| 0 <= i < t.len() - 1 ==> n2b_transition_ok(#[trigger] t[i], t[i + 1])
    &&& n2b_last_row_ok(t[t.len() - 1])
}

pub proof fn lemma_shift_down_low(n: nat, i: nat)
    ensures
        shift_down(n, i + 1) == shift_down(n / 2, i),
    decreases i,
{
    if i == 0 {
        assert(shift_down(n, 1) == shift_down(n, 0) / 2);
    } else {
        lemma_shift_down_low(n, (i - 1) as nat);
        assert(shift_down(n, i + 1) == shift_down(n, (i + 1 - 1) as nat) / 2);
        assert(shift_down(n / 2, i) == shift_down(n / 2, (i - 1) as nat) / 2);
    }
}

pub proof fn lemma_shift_down_le(n: nat, i: nat)
    ensures
        shift_down(n, i) <= n,
    decreases i,
{
    if i > 0 {
        lemma_shift_down_le(n, (i - 1) as nat);
    }
}

/// After exactly `n2b_steps(n)` halvings the state is zero.
pub proof fn lemma_shift_down_at_steps(n: nat)
    ensures
        shift_down(n, n2b_steps(n)) == 0,
    decreases n,
{
    if n > 0 {
        lemma_shift_down_at_steps(n / 2);
        lemma_shift_down_low(n, n2b_steps(n / 2));
    }
}

/// Before `n2b_steps(n)` halvings the state is still positive.
pub proof fn lemma_shift_down_pos(n: nat, i: nat)
    requires
        i < n2b_steps(n),
    ensures
        shift_down(n, i) > 0,
    decreases i,
{
    if i > 0 {
        lemma_shift_down_pos(n / 2, (i - 1) as nat);
        lemma_shift_down_low(n, (i - 1) as nat);
    }
}

/// From `n2b_steps(n)` halvings on the state stays zero.
pub proof fn lemma_shift_down_zero_after(n: nat, i: nat)
    requires
        i >= n2b_steps(n),
    ensures
        shift_down(n, i) == 0,
    decreases i - n2b_steps(n),
{
    if i == n2b_steps(n) {
        lemma_shift_down_at_steps(n);
    } else {
        lemma_shift_down_zero_after(n, (i - 1) as nat);
    }
}

/// The number of halving steps is bounded by the bit length of the input.
pub proof fn lemma_steps_bound(n: nat, k: nat)
    requires
        n < pow2(k),
    ensures
        n2b_steps(n) <= k,
    decreases n,
{
    if n > 0 {
        if k == 0 {
            lemma2_to64();
            assert(false);
        } else {
            lemma_pow2_unfold(k);
            lemma_steps_bound(n / 2, (k - 1) as nat);
        }
    }
}

/// The bit-decomposition AIR over a trace of width three.
#[derive(Clone, Copy, Debug)]
pub struct Num2BitsAir;

impl Num2BitsAir {
    /// Row width of this AIR.
    pub fn width(&self) -> (w: usize)
        ensures
            w == WIDTH,
    {
        WIDTH
    }

    /// Evaluates every constraint of this AIR on concrete trace cells:
    /// returns whether the trace is a valid witness under the given public
    /// inputs. This is the rule the proving backend forces to zero.
    pub fn eval(&self, trace: &Trace, pis: &PublicInputs) -> (ok: bool)
        requires
            trace.wf(),
            trace@.len() >= 1,
            pis@.len() >= 1,
            pis.wf(),
        ensures
            ok == n2b_constraints_hold(trace@, pis@),
    {
        let h = trace.height();
        let first = trace.row(0);
        let p0 = pis.get(0);
        if first.c0.as_canonical_u64() != p0.as_canonical_u64() {
            return false;
        }
        let two = Fp::from_u64(2);
        let mut i: usize = 0;
        while i + 1 < h
            invariant
                trace.wf(),
                h == trace@.len(),
                0 <= i <= h - 1,
                two.inv(),
                two@ == 2,
                forall|k: int|
                    0 <= k < i ==> n2b_transition_ok(#[trigger] trace@[k], trace@[k + 1]),
            decreases h - i,
        {
            let cur = trace.row(i);
            let nxt = trace.row(i + 1);
            let lhs = nxt.c0.mul(&two).add(&cur.c2);
            if lhs.as_canonical_u64() != cur.c0.as_canonical_u64() {
                return false;
            }
            if nxt.c0.as_canonical_u64() != cur.c1.as_canonical_u64() {
                return false;
            }
            i = i + 1;
        }
        let last = trace.row(h - 1);
        if last.c0.as_canonical_u64() != 0 {
            return false;
        }
        if last.c1.as_canonical_u64() != 0 {
            return false;
        }
        if last.c2.as_canonical_u64() != 0 {
            return false;
        }
        true
    }
}

/// Builds the padded bit-decomposition trace of `n`, following the
/// recursion `n -> (n / 2, n % 2)` and padding with zero rows to the next
/// power of two.
pub fn gen_trace(n: u64) -> (t: Trace)
    requires
        n < FIELD_ORDER,
    ensures
        t@ == n2b_trace(n as nat),
        t.wf(),
{
    let ghost gn = n as nat;
    let mut n_local = n;
    let mut rows: Vec<Row> = Vec::new();
    while n_local > 0
        invariant
            n < FIELD_ORDER,
            n_local == shift_down(gn, rows@.len() as nat),
            rows@.len() <= n2b_steps(gn),
            gn == n as nat,
            forall|i: int|
                0 <= i < rows@.len() ==> #[trigger] rows@[i]@ == n2b_row(gn, i as nat),
        decreases n_local,
    {
        proof {
            if rows@.len() >= n2b_steps(gn) {
                lemma_shift_down_zero_after(gn, rows@.len() as nat);
            }
            lemma_shift_down_le(gn, rows@.len() as nat);
        }
        let r = Row {
            c0: Fp::from_u64(n_local),
            c1: Fp::from_u64(n_local / 2),
            c2: Fp::from_u64(n_local % 2),
        };
        rows.push(r);
        n_local = n_local / 2;
    }
    proof {
        if rows@.len() < n2b_steps(gn) {
            lemma_shift_down_pos(gn, rows@.len() as nat);
        }
        lemma_shift_down_at_steps(gn);
    }
    let zero_row = Row {
        c0: Fp::from_u64(0),
        c1: Fp::from_u64(0),
        c2: Fp::from_u64(0),
    };
    rows.push(zero_row);
    let m = rows.len();
    proof {
        lemma2_to64();
        lemma_steps_bound(gn, 31);
        lemma_next_pow2_bounds((n2b_steps(gn) + 1) as nat);
    }
    let target = next_pow2_exec(m);
    while rows.len() < target
        invariant
            gn < FIELD_ORDER,
            target as nat == next_pow2((n2b_steps(gn) + 1) as nat),
            n2b_steps(gn) + 1 <= rows@.len() <= target,
            forall|i: int|
                0 <= i < rows@.len() ==> #[trigger] rows@[i]@ == n2b_row(gn, i as nat),
        decreases target - rows@.len(),
    {
        proof {
            lemma_shift_down_zero_after(gn, rows@.len() as nat);
        }
        rows.push(
            Row {
                c0: Fp::from_u64(0),
                c1: Fp::from_u64(0),
                c2: Fp::from_u64(0),
            },
        );
    }
    proof {
        lemma_next_pow2_bounds((n2b_steps(gn) + 1) as nat);
    }
    let t = Trace::new(rows);
    proof {
        assert(t@ =~= n2b_trace(gn));
        assert forall|i: int| 0 <= i < t@.len() implies row_wf(#[trigger] t@[i]) by {
            lemma_shift_down_le(gn, i as nat);
        };
    }
    t
}

/// Relation entry point: the trace and public inputs for the claim
/// "`n` has this bit decomposition", ready for the proving backend.
pub fn num2bits_witness(n: u64) -> (w: (Trace, PublicInputs))
    requires
        n < FIELD_ORDER,
    ensures
        w.0@ == n2b_trace(n as nat),
        w.0.wf(),
        w.1@ == seq![n as int],
        w.1.wf(),
{
    let t = gen_trace(n);
    let mut values: Vec<Fp> = Vec::new();
    values.push(Fp::from_u64(n));
    let pis = PublicInputs::new(values);
    proof {
        assert(pis@ =~= seq![n as int]);
    }
    (t, pis)
}

/// The generated trace is a valid witness: for every `n` in the canonical
/// range, the bit-decomposition trace of `n` satisfies every constraint of
/// the AIR under the public input `n`.
pub proof fn lemma_generated_trace_satisfies_air(n: nat)
    requires
        n < FIELD_ORDER,
    ensures
        n2b_constraints_hold(n2b_trace(n), seq![n as int]),
{
    let t = n2b_trace(n);
    let s = n2b_steps(n);
    lemma_next_pow2_bounds((s + 1) as nat);
    assert forall|i: int| 0 <= i < t.len() - 1 implies n2b_transition_ok(
        #[trigger] t[i],
        t[i + 1],
    ) by {
        let si = shift_down(n, i as nat);
        lemma_shift_down_le(n, i as nat);
        assert(shift_down(n, (i + 1) as nat) == si / 2);
        assert(fmul((si / 2) as int, 2) == si / 2 * 2) by {
            lemma_shift_down_le(n, (i + 1) as nat);
        };
        assert(fadd((si / 2 * 2) as int, (si % 2) as int) == si);
    };
    lemma_shift_down_zero_after(n, (t.len() - 1) as nat);
}

/// Binding of the public input: a public input that differs from `n` by any
/// nonzero field amount violates the first-row constraint, so the trace of
/// `n` is not a witness for it.
pub proof fn lemma_public_input_binding(n: nat, p: int)
    requires
        n < FIELD_ORDER,
        0 <= p < FIELD_ORDER,
        p != n,
    ensures
        !n2b_constraints_hold(n2b_trace(n), seq![p]),
{
    lemma_next_pow2_bounds((n2b_steps(n) + 1) as nat);
    assert(n2b_trace(n)[0][0] == n);
}

/// The integer read least-significant-bit first from column 2 of rows
/// `i .. k` of `t`.
pub open spec fn lsb_value(t: Seq<Seq<int>>, i: int, k: int) -> int
    decreases k - i,
{
    if i >= k {
        0
    } else {
        t[i][2] + 2 * lsb_value(t, i + 1, k)
    }
}

proof fn lemma_lsb_value_from(n: nat, i: int, k: int)
    requires
        0 <= i <= k,
        k == n2b_steps(n) + 1,
    ensures
        lsb_value(n2b_trace(n), i, k) == shift_down(n, i as nat),
    decreases k - i,
{
    if i == k {
        lemma_shift_down_zero_after(n, i as nat);
    } else {
        lemma_lsb_value_from(n, i + 1, k);
        lemma_next_pow2_bounds(k as nat);
        assert(shift_down(n, (i + 1) as nat) == shift_down(n, i as nat) / 2);
    }
}

/// Shape of the generated trace: its height is the next power of two above
/// the number of halving steps plus one; its last row is the all-zero
/// state; and reading column 2 least-significant-bit first across the
/// non-padding rows reproduces `n`.
pub proof fn lemma_trace_shape(n: nat)
    requires
        n < FIELD_ORDER,
    ensures
        n2b_trace(n).len() == next_pow2(n2b_steps(n) + 1),
        n2b_last_row_ok(n2b_trace(n)[n2b_trace(n).len() - 1]),
        lsb_value(n2b_trace(n), 0, n2b_steps(n) + 1 as int) == n,
{
    lemma_next_pow2_bounds((n2b_steps(n) + 1) as nat);
    lemma_shift_down_zero_after(n, (n2b_trace(n).len() - 1) as nat);
    lemma_lsb_value_from(n, 0, n2b_steps(n) + 1 as int);
}

/// The trace generator is deterministic: any two traces that meet the
/// generator's contract for the same input are equal.
pub proof fn lemma_generator_deterministic(n: nat, t1: Seq<Seq<int>>, t2: Seq<Seq<int>>)
    requires
        t1 == n2b_trace(n),
        t2 == n2b_trace(n),
    ensures
        t1 == t2,
{
}

} // verus!
