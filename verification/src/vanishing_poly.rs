//! Evaluation of the vanishing polynomial: the composition of the
//! chip's own per-row constraints (none), the lookup-argument
//! transition constraints, and any cross-table-lookup checks, folded
//! into one accumulator per verifier challenge.
//!
//! The lookup-accumulator transition rule evaluated here is the
//! logarithmic-derivative one: per column group and challenge `gamma`,
//! the accumulator advances by `filter / (gamma - combined) -
//! multiplicity / (gamma - table_combined)` each row; with
//! denominators cleared the per-row constraint is
//! `(z' - z) * (gamma - combined) * (gamma - table_combined)
//!  - filter * (gamma - table_combined)
//!  + multiplicity * (gamma - combined)`.
//! The boundary conditions tying the accumulator's first and last
//! values to the protocol are the enclosing proof system's and are not
//! restated here.

use vstd::prelude::*;
use crate::columns::NUM_BYTE_COLS;
use crate::field::{
    ExtElem, base_wf, ext_wf, spec_ext_add, spec_ext_sub, spec_ext_mul, spec_ext_from_base,
    ext_add, ext_sub, ext_mul, ext_from_base, ext_zero, FIELD_ORDER,
};
use crate::lookup::{Lookup, terms_wf, lookup_wf};
use crate::byte_stark::ByteStark;

verus! {

/// The opened values of one evaluation frame: the current row and the
/// next, one extension element per trace column.
#[derive(Debug, Clone, PartialEq, Eq)]
pub struct EvaluationFrame {
    /// The openings of the current row.
    pub local_values: Vec<ExtElem>,
    /// The openings of the next row.
    pub next_values: Vec<ExtElem>,
}

/// Whether a frame has the trace width and canonical values.
pub open spec fn frame_wf(f: EvaluationFrame) -> bool {
    &&& f.local_values@.len() == NUM_BYTE_COLS
    &&& f.next_values@.len() == NUM_BYTE_COLS
    &&& forall|i: int| 0 <= i < NUM_BYTE_COLS ==> ext_wf(#[trigger] f.local_values@[i])
    &&& forall|i: int| 0 <= i < NUM_BYTE_COLS ==> ext_wf(#[trigger] f.next_values@[i])
}

/// Folds constraint values: each constraint `v` turns accumulator `a`
/// into `alpha * a + v`, one accumulator per challenge.
#[derive(Debug, Clone, PartialEq, Eq)]
pub struct ConstraintConsumer {
    /// The challenges weighting the constraints, one per accumulator.
    pub alphas: Vec<u64>,
    /// The running combination of every constraint consumed so far.
    pub accumulators: Vec<ExtElem>,
}

/// One folding step of one accumulator.
pub open spec fn spec_consume(alpha: u64, acc: ExtElem, v: ExtElem) -> ExtElem {
    spec_ext_add(spec_ext_mul(spec_ext_from_base(alpha), acc), v)
}

/// The accumulator after folding a whole constraint sequence.
pub open spec fn spec_fold_constraints(alpha: u64, acc0: ExtElem, vs: Seq<ExtElem>) -> ExtElem
    decreases vs.len(),
{
    if vs.len() == 0 {
        acc0
    } else {
        spec_consume(alpha, spec_fold_constraints(alpha, acc0, vs.drop_last()), vs.last())
    }
}

/// Whether a consumer is well formed: as many accumulators as
/// challenges, all canonical.
pub open spec fn consumer_wf(c: ConstraintConsumer) -> bool {
    &&& c.alphas@.len() == c.accumulators@.len()
    &&& forall|k: int| 0 <= k < c.alphas@.len() ==> base_wf(#[trigger] c.alphas@[k])
    &&& forall|k: int| 0 <= k < c.accumulators@.len() ==> ext_wf(#[trigger] c.accumulators@[k])
}

impl ConstraintConsumer {
    /// A consumer with zeroed accumulators, one per challenge.
    pub fn new(alphas: Vec<u64>) -> (c: Self)
        requires
            forall|k: int| 0 <= k < alphas@.len() ==> base_wf(#[trigger] alphas@[k]),
        ensures
            consumer_wf(c),
            c.alphas == alphas,
            c.accumulators@.len() == alphas@.len(),
            forall|k: int|
                0 <= k < alphas@.len() ==> #[trigger] c.accumulators@[k] == (ExtElem {
                    c0: 0u64,
                    c1: 0u64,
                }),
    {
        let mut accumulators: Vec<ExtElem> = Vec::new();
        let mut k: usize = 0;
        while k < alphas.len()
            invariant
                k <= alphas@.len(),
                accumulators@.len() == k,
                forall|j: int|
                    0 <= j < k ==> #[trigger] accumulators@[j] == (ExtElem { c0: 0u64, c1: 0u64 }),
            decreases alphas@.len() - k,
        {
            accumulators.push(ext_zero());
            k = k + 1;
        }
        ConstraintConsumer { alphas, accumulators }
    }

    /// Consumes one constraint value into every accumulator.
    pub fn constraint(&mut self, v: ExtElem)
        requires
            consumer_wf(*old(self)),
            ext_wf(v),
        ensures
            consumer_wf(*final(self)),
            final(self).alphas == old(self).alphas,
            final(self).accumulators@.len() == old(self).accumulators@.len(),
            forall|k: int|
                0 <= k < old(self).accumulators@.len() ==> #[trigger] final(self).accumulators@[k]
                    == spec_consume(old(self).alphas@[k], old(self).accumulators@[k], v),
    {
        let n = self.accumulators.len();
        let mut k: usize = 0;
        while k < n
            invariant
                consumer_wf(*old(self)),
                ext_wf(v),
                k <= n,
                n == old(self).accumulators@.len(),
                self.alphas == old(self).alphas,
                self.accumulators@.len() == n,
                forall|j: int|
                    k <= j < n ==> #[trigger] self.accumulators@[j] == old(self).accumulators@[j],
                forall|j: int|
                    0 <= j < k ==> #[trigger] self.accumulators@[j] == spec_consume(
                        old(self).alphas@[j],
                        old(self).accumulators@[j],
                        v,
                    ),
            decreases n - k,
        {
            let alpha = self.alphas[k];
            let acc = self.accumulators[k];
            let next = ext_add(ext_mul(ext_from_base(alpha), acc), v);
            self.accumulators.set(k, next);
            k = k + 1;
        }
    }
}

/// The value of a column combination on the opened values, in the
/// extension field.
pub open spec fn spec_combination_ext(terms: Seq<(usize, u64)>, vals: Seq<ExtElem>) -> ExtElem
    decreases terms.len(),
{
    if terms.len() == 0 {
        ExtElem { c0: 0u64, c1: 0u64 }
    } else {
        spec_ext_add(
            spec_combination_ext(terms.drop_last(), vals),
            spec_ext_mul(spec_ext_from_base(terms.last().1), vals[terms.last().0 as int]),
        )
    }
}

/// Evaluates a column combination on opened values.
fn combination_ext(terms: &Vec<(usize, u64)>, vals: &Vec<ExtElem>) -> (r: ExtElem)
    requires
        terms_wf(terms@),
        vals@.len() == NUM_BYTE_COLS,
        forall|i: int| 0 <= i < vals@.len() ==> ext_wf(#[trigger] vals@[i]),
    ensures
        r == spec_combination_ext(terms@, vals@),
        ext_wf(r),
{
    let mut r = ext_zero();
    let mut i: usize = 0;
    while i < terms.len()
        invariant
            i <= terms@.len(),
            terms_wf(terms@),
            vals@.len() == NUM_BYTE_COLS,
            forall|j: int| 0 <= j < vals@.len() ==> ext_wf(#[trigger] vals@[j]),
            ext_wf(r),
            r == spec_combination_ext(terms@.take(i as int), vals@),
        decreases terms@.len() - i,
    {
        let (col, coeff) = terms[i];
        let term = ext_mul(ext_from_base(coeff), vals[col]);
        r = ext_add(r, term);
        proof {
            assert(terms@.take(i as int + 1).drop_last() =~= terms@.take(i as int));
            assert(terms@.take(i as int + 1).last() == terms@[i as int]);
        }
        i = i + 1;
    }
    proof {
        assert(terms@.take(terms@.len() as int) =~= terms@);
    }
    r
}

/// The per-(column-group, challenge) lookup check variables: the
/// opened accumulator columns, this row and the next, laid out one
/// challenge after another within each column group, and the lookup
/// challenges themselves.
#[derive(Debug, Clone, PartialEq, Eq)]
pub struct LookupCheckVars {
    /// The opened accumulator values of the current row; entry
    /// `l * challenges.len() + c` belongs to column group `l` and
    /// challenge `c`.
    pub local_values: Vec<ExtElem>,
    /// The same accumulators opened on the next row.
    pub next_values: Vec<ExtElem>,
    /// The lookup challenges `gamma`.
    pub challenges: Vec<u64>,
}

/// Whether lookup check variables fit the declared lookups.
pub open spec fn lookup_vars_wf(v: LookupCheckVars, num_lookups: int) -> bool {
    &&& v.local_values@.len() == num_lookups * v.challenges@.len()
    &&& v.next_values@.len() == num_lookups * v.challenges@.len()
    &&& forall|i: int| 0 <= i < v.local_values@.len() ==> ext_wf(#[trigger] v.local_values@[i])
    &&& forall|i: int| 0 <= i < v.next_values@.len() ==> ext_wf(#[trigger] v.next_values@[i])
    &&& forall|i: int| 0 <= i < v.challenges@.len() ==> base_wf(#[trigger] v.challenges@[i])
}

/// The cleared-denominator transition constraint of one column group
/// under one challenge:
/// `(z' - z)(g - f)(g - t) - filter * (g - t) + mult * (g - f)`,
/// with `f` the request combination and `t` the table combination of
/// the opened row.
pub open spec fn spec_lookup_constraint(
    lk: Lookup,
    gamma: u64,
    local: Seq<ExtElem>,
    z: ExtElem,
    z_next: ExtElem,
) -> ExtElem {
    let g = spec_ext_from_base(gamma);
    let f = spec_combination_ext(lk.columns@[0].terms@, local);
    let t = spec_combination_ext(lk.table_column.terms@, local);
    let phi = local[lk.filter_columns@[0].column as int];
    let m = local[lk.frequencies_column as int];
    let dz = spec_ext_sub(z_next, z);
    let gf = spec_ext_sub(g, f);
    let gt = spec_ext_sub(g, t);
    spec_ext_add(
        spec_ext_sub(spec_ext_mul(spec_ext_mul(dz, gf), gt), spec_ext_mul(phi, gt)),
        spec_ext_mul(m, gf),
    )
}

/// The whole sequence of lookup constraints, group by group, each
/// group under every challenge in order.
pub open spec fn spec_lookup_constraints(
    lookups: Seq<Lookup>,
    vars: LookupCheckVars,
    local: Seq<ExtElem>,
) -> Seq<ExtElem> {
    let nc = vars.challenges@.len() as int;
    Seq::new(
        (lookups.len() * nc) as nat,
        |i: int|
            spec_lookup_constraint(
                lookups[i / nc],
                vars.challenges@[i % nc],
                local,
                vars.local_values@[i],
                vars.next_values@[i],
            ),
    )
}

/// One cross-table-lookup check on this table: one side of a lookup
/// whose other side lives in another table of the same proof.
#[derive(Debug, Clone, PartialEq, Eq)]
pub struct CtlCheckVars {
    /// The opened cross-table accumulator of the current row.
    pub local_z: ExtElem,
    /// The same accumulator opened on the next row.
    pub next_z: ExtElem,
    /// The lookup challenge binding the two tables.
    pub challenge: u64,
    /// The combined value this table contributes.
    pub columns: crate::lookup::ColumnCombination,
    /// The selector weighting this row's contribution: a filter on the
    /// request side, a multiplicity on the table side.
    pub selector: crate::lookup::ColumnCombination,
}

/// Whether a cross-table check is well formed.
pub open spec fn ctl_wf(v: CtlCheckVars) -> bool {
    &&& ext_wf(v.local_z)
    &&& ext_wf(v.next_z)
    &&& base_wf(v.challenge)
    &&& terms_wf(v.columns.terms@)
    &&& terms_wf(v.selector.terms@)
}

/// The cleared-denominator transition constraint of one cross-table
/// check: `(z' - z)(g - combined) - selector`.
pub open spec fn spec_ctl_constraint(v: CtlCheckVars, local: Seq<ExtElem>) -> ExtElem {
    let g = spec_ext_from_base(v.challenge);
    let f = spec_combination_ext(v.columns.terms@, local);
    let sel = spec_combination_ext(v.selector.terms@, local);
    spec_ext_sub(spec_ext_mul(spec_ext_sub(v.next_z, v.local_z), spec_ext_sub(g, f)), sel)
}

/// The sequence of cross-table constraints, in declaration order.
pub open spec fn spec_ctl_constraints(ctls: Seq<CtlCheckVars>, local: Seq<ExtElem>) -> Seq<
    ExtElem,
> {
    Seq::new(ctls.len(), |i: int| spec_ctl_constraint(ctls[i], local))
}

/// Every constraint the vanishing polynomial composes, in evaluation
/// order: the chip's native constraints (none), then the lookup
/// constraints, then the cross-table checks.
pub open spec fn spec_vanishing_constraints(
    lookups: Seq<Lookup>,
    lookup_vars: Option<LookupCheckVars>,
    ctl_vars: Option<Seq<CtlCheckVars>>,
    local: Seq<ExtElem>,
) -> Seq<ExtElem> {
    (match lookup_vars {
        Option::Some(v) => spec_lookup_constraints(lookups, v, local),
        Option::None => Seq::empty(),
    }) + (match ctl_vars {
        Option::Some(cs) => spec_ctl_constraints(cs, local),
        Option::None => Seq::empty(),
    })
}

impl ByteStark {
    /// The chip's own per-row constraints: there are none; every row
    /// property is carried by the lookup argument, so nothing is
    /// consumed.
    pub fn eval_packed_generic(&self, _vars: &EvaluationFrame, consumer: &mut ConstraintConsumer)
        ensures
            *final(consumer) == *old(consumer),
    {
    }
}

/// Folding one more constraint is one consume step.
proof fn lemma_fold_push(alpha: u64, acc0: ExtElem, vs: Seq<ExtElem>, v: ExtElem)
    ensures
        spec_fold_constraints(alpha, acc0, vs.push(v)) == spec_consume(
            alpha,
            spec_fold_constraints(alpha, acc0, vs),
            v,
        ),
{
    assert(vs.push(v).drop_last() =~= vs);
    assert(vs.push(v).last() == v);
}

/// Evaluates one lookup transition constraint on the opened values.
fn eval_lookup_constraint(
    lk: &Lookup,
    gamma: u64,
    local: &Vec<ExtElem>,
    z: ExtElem,
    z_next: ExtElem,
) -> (r: ExtElem)
    requires
        lookup_wf(*lk),
        base_wf(gamma),
        local@.len() == NUM_BYTE_COLS,
        forall|i: int| 0 <= i < local@.len() ==> ext_wf(#[trigger] local@[i]),
        ext_wf(z),
        ext_wf(z_next),
    ensures
        r == spec_lookup_constraint(*lk, gamma, local@, z, z_next),
        ext_wf(r),
{
    let g = ext_from_base(gamma);
    let f = combination_ext(&lk.columns[0].terms, local);
    let t = combination_ext(&lk.table_column.terms, local);
    let phi = local[lk.filter_columns[0].column];
    let m = local[lk.frequencies_column];
    let dz = ext_sub(z_next, z);
    let gf = ext_sub(g, f);
    let gt = ext_sub(g, t);
    ext_add(ext_sub(ext_mul(ext_mul(dz, gf), gt), ext_mul(phi, gt)), ext_mul(m, gf))
}

/// Evaluates one cross-table check constraint on the opened values.
fn eval_ctl_constraint(v: &CtlCheckVars, local: &Vec<ExtElem>) -> (r: ExtElem)
    requires
        ctl_wf(*v),
        local@.len() == NUM_BYTE_COLS,
        forall|i: int| 0 <= i < local@.len() ==> ext_wf(#[trigger] local@[i]),
    ensures
        r == spec_ctl_constraint(*v, local@),
        ext_wf(r),
{
    let g = ext_from_base(v.challenge);
    let f = combination_ext(&v.columns.terms, local);
    let sel = combination_ext(&v.selector.terms, local);
    ext_sub(ext_mul(ext_sub(v.next_z, v.local_z), ext_sub(g, f)), sel)
}

/// Evaluates every constraint the vanishing polynomial composes at the
/// opened frame, in order — the chip's native constraints (none), the
/// lookup transition constraints, the cross-table checks — and folds
/// them into the consumer's accumulators.
#[verifier::loop_isolation(false)]
#[verifier::rlimit(100)]
pub fn eval_vanishing_poly(
    stark: &ByteStark,
    frame: &EvaluationFrame,
    lookups: &Vec<Lookup>,
    lookup_vars: Option<&LookupCheckVars>,
    ctl_vars: Option<&Vec<CtlCheckVars>>,
    consumer: &mut ConstraintConsumer,
)
    requires
        frame_wf(*frame),
        consumer_wf(*old(consumer)),
        forall|l: int| 0 <= l < lookups@.len() ==> lookup_wf(#[trigger] lookups@[l]),
        match lookup_vars {
            Option::Some(v) => lookup_vars_wf(*v, lookups@.len() as int),
            Option::None => true,
        },
        match ctl_vars {
            Option::Some(cs) => forall|i: int| 0 <= i < cs@.len() ==> ctl_wf(#[trigger] cs@[i]),
            Option::None => true,
        },
    ensures
        consumer_wf(*final(consumer)),
        final(consumer).alphas == old(consumer).alphas,
        final(consumer).accumulators@.len() == old(consumer).accumulators@.len(),
        forall|k: int|
            0 <= k < old(consumer).accumulators@.len()
                ==> #[trigger] final(consumer).accumulators@[k] == spec_fold_constraints(
                old(consumer).alphas@[k],
                old(consumer).accumulators@[k],
                spec_vanishing_constraints(
                    lookups@,
                    match lookup_vars {
                        Option::Some(v) => Option::Some(*v),
                        Option::None => Option::None,
                    },
                    match ctl_vars {
                        Option::Some(cs) => Option::Some(cs@),
                        Option::None => Option::None,
                    },
                    frame.local_values@,
                ),
            ),
{
    let ghost vs_all = spec_vanishing_constraints(
        lookups@,
        match lookup_vars {
            Option::Some(v) => Option::Some(*v),
            Option::None => Option::None,
        },
        match ctl_vars {
            Option::Some(cs) => Option::Some(cs@),
            Option::None => Option::None,
        },
        frame.local_values@,
    );
    let ghost acc0 = old(consumer).accumulators@;
    let ghost alphas0 = old(consumer).alphas@;
    let ghost mut emitted: Seq<ExtElem> = Seq::empty();
    stark.eval_packed_generic(frame, consumer);
    let ghost lk_part = match lookup_vars {
        Option::Some(v) => spec_lookup_constraints(lookups@, *v, frame.local_values@),
        Option::None => Seq::<ExtElem>::empty(),
    };
    if let Option::Some(lv) = lookup_vars {
        let nc = lv.challenges.len();
        let num_z = lv.local_values.len();
        let mut idx: usize = 0;
        let mut l: usize = 0;
        while l < lookups.len()
            invariant
                l <= lookups@.len(),
                idx == l * nc as int,
                consumer_wf(*consumer),
                consumer.alphas == old(consumer).alphas,
                consumer.accumulators@.len() == acc0.len(),
                emitted.len() == idx,
                emitted == lk_part.take(idx as int),
                forall|k: int|
                    0 <= k < acc0.len() ==> #[trigger] consumer.accumulators@[k]
                        == spec_fold_constraints(alphas0[k], acc0[k], emitted),
            decreases lookups@.len() - l,
        {
            let mut c: usize = 0;
            while c < nc
                invariant
                    c <= nc,
                    l < lookups@.len(),
                    idx == l * nc as int + c,
                    consumer_wf(*consumer),
                    consumer.alphas == old(consumer).alphas,
                    consumer.accumulators@.len() == acc0.len(),
                    emitted.len() == idx,
                    emitted == lk_part.take(idx as int),
                    forall|k: int|
                        0 <= k < acc0.len() ==> #[trigger] consumer.accumulators@[k]
                            == spec_fold_constraints(alphas0[k], acc0[k], emitted),
                decreases nc - c,
            {
                proof {
                    vstd::arithmetic::mul::lemma_mul_inequality(
                        l as int + 1,
                        lookups@.len() as int,
                        nc as int,
                    );
                    vstd::arithmetic::mul::lemma_mul_is_distributive_add_other_way(
                        nc as int,
                        l as int,
                        1,
                    );
                    assert(idx < lookups@.len() * nc as int);
                }
                let lk = &lookups[l];
                let v = eval_lookup_constraint(
                    lk,
                    lv.challenges[c],
                    &frame.local_values,
                    lv.local_values[idx],
                    lv.next_values[idx],
                );
                let ghost pre = emitted;
                consumer.constraint(v);
                proof {
                    emitted = emitted.push(v);
                    assert(idx as int / nc as int == l as int && idx as int % nc as int == c
                        as int) by {
                        vstd::arithmetic::div_mod::lemma_fundamental_div_mod_converse(
                            idx as int,
                            nc as int,
                            l as int,
                            c as int,
                        );
                    }
                    assert(lk_part[idx as int] == v);
                    assert(lk_part.take(idx as int + 1) =~= pre.push(v));
                    assert forall|k: int| 0 <= k < acc0.len() implies #[trigger] consumer
                        .accumulators@[k] == spec_fold_constraints(alphas0[k], acc0[k], emitted) by {
                        lemma_fold_push(alphas0[k], acc0[k], pre, v);
                    }
                    assert(idx < lv.local_values@.len());
                    assert(idx < num_z);
                }
                idx = idx + 1;
                c = c + 1;
            }
            proof {
                vstd::arithmetic::mul::lemma_mul_is_distributive_add_other_way(
                    nc as int,
                    l as int,
                    1,
                );
            }
            l = l + 1;
        }
        proof {
            assert(emitted =~= lk_part);
        }
    }
    proof {
        assert(emitted =~= lk_part);
    }
    let ghost ctl_part = match ctl_vars {
        Option::Some(cs) => spec_ctl_constraints(cs@, frame.local_values@),
        Option::None => Seq::<ExtElem>::empty(),
    };
    if let Option::Some(cv) = ctl_vars {
        let mut j: usize = 0;
        while j < cv.len()
            invariant
                j <= cv@.len(),
                consumer_wf(*consumer),
                consumer.alphas == old(consumer).alphas,
                consumer.accumulators@.len() == acc0.len(),
                emitted == lk_part + ctl_part.take(j as int),
                forall|k: int|
                    0 <= k < acc0.len() ==> #[trigger] consumer.accumulators@[k]
                        == spec_fold_constraints(alphas0[k], acc0[k], emitted),
            decreases cv@.len() - j,
        {
            let v = eval_ctl_constraint(&cv[j], &frame.local_values);
            let ghost pre = emitted;
            consumer.constraint(v);
            proof {
                emitted = emitted.push(v);
                assert(ctl_part[j as int] == v);
                assert(lk_part + ctl_part.take(j as int + 1) =~= pre.push(v));
                assert forall|k: int| 0 <= k < acc0.len() implies #[trigger] consumer
                    .accumulators@[k] == spec_fold_constraints(alphas0[k], acc0[k], emitted) by {
                    lemma_fold_push(alphas0[k], acc0[k], pre, v);
                }
            }
            j = j + 1;
        }
        proof {
            assert(emitted =~= lk_part + ctl_part);
        }
    }
    proof {
        assert(emitted =~= vs_all);
    }
}

} // verus!
