//! The lookup-argument descriptors the chip declares.
//!
//! One descriptor per column group: the combined value packed from
//! `(result, b, c)` on the request side, the same expression as the
//! table side, the group's multiplicity column as frequencies, and the
//! group's filter column marking active request rows.

use vstd::prelude::*;
use crate::opcode::NUM_BYTE_OP_COLS;
use crate::columns::{
    spec_multiplicities_index, spec_filter_index, spec_b_index, spec_c_index, opcode_index,
    multiplicities_index, filter_index, b_index, c_index,
};
use crate::byte_stark::{
    ByteStark, request_valid, request_group, request_target_row, request_row, table_row,
};
use crate::event::ByteLookupEvent;
use crate::opcode::{opcode_value, group_opcode};
use crate::columns::NUM_BYTE_COLS;
use crate::field::FIELD_ORDER;

verus! {

/// A linear combination of trace columns: pairs of a column index and
/// a coefficient, summed.
#[derive(Debug, Clone, PartialEq, Eq)]
pub struct ColumnCombination {
    /// The terms `(column, coefficient)` of the combination.
    pub terms: Vec<(usize, u64)>,
}

/// An active-row filter: the named column must hold 1 on rows taking
/// part in the lookup.
#[derive(Debug, Clone, Copy, PartialEq, Eq, Structural)]
pub struct Filter {
    /// The filter column.
    pub column: usize,
}

/// One lookup-argument descriptor: the filtered request combinations
/// must equal, up to the recorded multiplicities, the table
/// combinations.
#[derive(Debug, Clone, PartialEq, Eq)]
pub struct Lookup {
    /// The combined-value expressions supplied by request rows.
    pub columns: Vec<ColumnCombination>,
    /// The combined-value expression the table side supplies on every
    /// row.
    pub table_column: ColumnCombination,
    /// The column recording how often each table entry is requested.
    pub frequencies_column: usize,
    /// The filters marking which rows request a value.
    pub filter_columns: Vec<Filter>,
}

/// Whether a combination's terms address the trace width with
/// canonical coefficients.
pub open spec fn terms_wf(terms: Seq<(usize, u64)>) -> bool {
    forall|i: int|
        0 <= i < terms.len() ==> (#[trigger] terms[i]).0 < NUM_BYTE_COLS && terms[i].1
            < FIELD_ORDER
}

/// Whether a declared lookup descriptor is well formed: one combined
/// request column, one filter, all referring to trace columns.
pub open spec fn lookup_wf(lk: Lookup) -> bool {
    &&& lk.columns@.len() == 1
    &&& terms_wf(lk.columns@[0].terms@)
    &&& terms_wf(lk.table_column.terms@)
    &&& lk.frequencies_column < NUM_BYTE_COLS
    &&& lk.filter_columns@.len() == 1
    &&& lk.filter_columns@[0].column < NUM_BYTE_COLS
}

/// The value of a linear combination on a row, over the integers.
pub open spec fn spec_combination_value(terms: Seq<(usize, u64)>, row: Seq<u64>) -> int
    decreases terms.len(),
{
    if terms.len() == 0 {
        0
    } else {
        spec_combination_value(terms.drop_last(), row) + (terms.last().1 as int) * row[
            terms.last().0 as int
        ]
    }
}

/// The combined-value expression of column group `g`: the group's
/// result column plus `256` times operand `b` plus `65536` times
/// operand `c`, packing the triple into one field element.
pub open spec fn spec_combined_terms(g: int) -> Seq<(usize, u64)> {
    seq![
        ((g as usize), 1u64),
        ((spec_b_index() as usize), 256u64),
        ((spec_c_index() as usize), 65536u64),
    ]
}

/// On any full-width row, the combined value of group `g` is
/// `result + 256 * b + 65536 * c`.
pub proof fn lemma_combined_value(g: int, row: Seq<u64>)
    requires
        0 <= g < NUM_BYTE_OP_COLS,
    ensures
        spec_combination_value(spec_combined_terms(g), row) == row[g] + 256 * row[spec_b_index()]
            + 65536 * row[spec_c_index()],
{
    let t = spec_combined_terms(g);
    let t2 = t.drop_last();
    let t1 = t2.drop_last();
    let t0 = t1.drop_last();
    assert(t0 =~= Seq::<(usize, u64)>::empty());
    assert(t1.len() == 1 && t2.len() == 2 && t.len() == 3);
    assert(t.last() == ((spec_c_index() as usize), 65536u64));
    assert(t2.last() == ((spec_b_index() as usize), 256u64));
    assert(t1.last() == ((g as usize), 1u64));
    let v0 = row[g] as int;
    let vb = row[spec_b_index()] as int;
    let vc = row[spec_c_index()] as int;
    assert(row[t1.last().0 as int] == row[g]);
    assert(row[t2.last().0 as int] == row[spec_b_index()]);
    assert(row[t.last().0 as int] == row[spec_c_index()]);
    assert(spec_combination_value(t0, row) == 0);
    assert(spec_combination_value(t1, row) == 0 + 1 * v0);
    assert(spec_combination_value(t2, row) == spec_combination_value(t1, row) + 256 * vb);
    assert(spec_combination_value(t, row) == spec_combination_value(t2, row) + 65536 * vc);
}

/// Law: a recognized request's combined value equals the combined
/// value its target table row supplies, in the request's column group
/// — the request is found in the exhaustive table by the lookup
/// argument, whatever multiplicities other requests have laid down.
pub proof fn lemma_request_matches_table(e: ByteLookupEvent, reqs: Seq<ByteLookupEvent>)
    requires
        request_valid(e),
    ensures
        spec_combination_value(spec_combined_terms(request_group(e)), request_row(e))
            == spec_combination_value(
            spec_combined_terms(request_group(e)),
            table_row(request_target_row(e), reqs),
        ),
{
    let g = request_group(e);
    let i = request_target_row(e);
    lemma_combined_value(g, request_row(e));
    lemma_combined_value(g, table_row(i, reqs));
    vstd::arithmetic::div_mod::lemma_fundamental_div_mod_converse(
        i,
        256,
        e.b as int,
        e.c as int,
    );
    assert(request_row(e)[g] == e.a as u64);
    assert(request_row(e)[spec_b_index()] == e.b as u64);
    assert(request_row(e)[spec_c_index()] == e.c as u64);
    assert(table_row(i, reqs)[g] == opcode_value(group_opcode(g), e.b as u8, e.c as u8) as u64);
    assert(table_row(i, reqs)[spec_b_index()] == e.b as u64);
    assert(table_row(i, reqs)[spec_c_index()] == e.c as u64);
    assert(group_opcode(g) == e.opcode);
}

impl ByteStark {
    /// The chip declares no native per-row constraints: its whole
    /// statement is carried by the lookup argument.
    pub fn constraint_degree(&self) -> (d: usize)
        ensures
            d == 0,
    {
        0
    }

    /// The lookup descriptors, one per column group: the request and
    /// table sides both pack `(result, b, c)` base-256 into one value,
    /// the group's multiplicity column counts requests, and its filter
    /// column marks active request rows.
    pub fn lookups(&self) -> (r: Vec<Lookup>)
        ensures
            r@.len() == NUM_BYTE_OP_COLS,
            forall|i: int| 0 <= i < NUM_BYTE_OP_COLS ==> lookup_wf(#[trigger] r@[i]),
            forall|i: int|
                0 <= i < NUM_BYTE_OP_COLS ==> {
                    &&& (#[trigger] r@[i]).columns@.len() == 1
                    &&& r@[i].columns@[0].terms@ == spec_combined_terms(i)
                    &&& r@[i].table_column.terms@ == spec_combined_terms(i)
                    &&& r@[i].frequencies_column == spec_multiplicities_index(i)
                    &&& r@[i].filter_columns@.len() == 1
                    &&& r@[i].filter_columns@[0].column == spec_filter_index(i)
                },
    {
        let mut r: Vec<Lookup> = Vec::new();
        let mut i: usize = 0;
        while i < NUM_BYTE_OP_COLS
            invariant
                i <= NUM_BYTE_OP_COLS,
                r@.len() == i,
                forall|k: int|
                    0 <= k < i ==> {
                        &&& (#[trigger] r@[k]).columns@.len() == 1
                        &&& r@[k].columns@[0].terms@ == spec_combined_terms(k)
                        &&& r@[k].table_column.terms@ == spec_combined_terms(k)
                        &&& r@[k].frequencies_column == spec_multiplicities_index(k)
                        &&& r@[k].filter_columns@.len() == 1
                        &&& r@[k].filter_columns@[0].column == spec_filter_index(k)
                    },
            decreases NUM_BYTE_OP_COLS - i,
        {
            let request_side = build_combined_terms(i);
            let table_side = build_combined_terms(i);
            let mut columns: Vec<ColumnCombination> = Vec::new();
            columns.push(request_side);
            let mut filter_columns: Vec<Filter> = Vec::new();
            filter_columns.push(Filter { column: filter_index(i) });
            let entry = Lookup {
                columns,
                table_column: table_side,
                frequencies_column: multiplicities_index(i),
                filter_columns,
            };
            r.push(entry);
            i = i + 1;
        }
        r
    }
}

/// Builds the combined-value expression of column group `i`.
fn build_combined_terms(i: usize) -> (r: ColumnCombination)
    requires
        i < NUM_BYTE_OP_COLS,
    ensures
        r.terms@ == spec_combined_terms(i as int),
{
    let mut terms: Vec<(usize, u64)> = Vec::new();
    terms.push((opcode_index(i), 1));
    terms.push((b_index(), 256));
    terms.push((c_index(), 65536));
    proof {
        assert(terms@ =~= spec_combined_terms(i as int));
    }
    ColumnCombination { terms }
}

} // verus!
