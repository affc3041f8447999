//! Trace generation for the byte chip.
//!
//! The trace is a rectangular matrix of canonical Goldilocks field
//! values (every value generated here is far below the field order, so
//! rows are carried as plain `u64`). Its first [`crate::NUM_ROWS`] rows
//! enumerate every byte pair exhaustively; one request row is appended
//! per processed event; the total is padded to a power of two.

use vstd::prelude::*;
use crate::NUM_ROWS;
use crate::opcode::{
    ByteOpcode, NUM_BYTE_OP_COLS, opcode_number, is_materialized, group_opcode, opcode_value,
    opcode_group,
};
use crate::columns::{
    NUM_BYTE_COLS, spec_opcode_index, spec_multiplicities_index, spec_filter_index, spec_b_index,
    spec_c_index, multiplicities_index,
};
use crate::event::ByteLookupEvent;

verus! {

/// A LEU event, as synthesized when a U8Range event is rewritten.
pub open spec fn leu_event(a: u32, b: u32, c: u32) -> ByteLookupEvent {
    ByteLookupEvent { opcode: ByteOpcode::LEU, a, b, c }
}

/// The requests an input event turns into: a U8Range event is rewritten
/// into four LEU requests that together assert `0 <= b <= 255` and
/// `0 <= c <= 255`; any other event is one request as it stands.
pub open spec fn expand_event(e: ByteLookupEvent) -> Seq<ByteLookupEvent> {
    if e.opcode == ByteOpcode::U8Range {
        seq![
            leu_event(1, 0, e.b),
            leu_event(1, e.b, 255),
            leu_event(1, 0, e.c),
            leu_event(1, e.c, 255),
        ]
    } else {
        seq![e]
    }
}

/// The full request stream of an event stream, in input order.
pub open spec fn expanded_events(events: Seq<ByteLookupEvent>) -> Seq<ByteLookupEvent>
    decreases events.len(),
{
    if events.len() == 0 {
        Seq::empty()
    } else {
        expanded_events(events.drop_last()) + expand_event(events.last())
    }
}

/// A request the exhaustive table recognizes: a materialized opcode,
/// byte operands, and the true result of the opcode on them.
pub open spec fn request_valid(e: ByteLookupEvent) -> bool {
    &&& is_materialized(e.opcode)
    &&& e.b < 256
    &&& e.c < 256
    &&& e.a == opcode_value(e.opcode, e.b as u8, e.c as u8) as u32
}

/// Whether an input event can be processed. A U8Range event only needs
/// byte operands; any other event must be a recognized request.
pub open spec fn event_ok(e: ByteLookupEvent) -> bool {
    if e.opcode == ByteOpcode::U8Range {
        e.b < 256 && e.c < 256
    } else {
        request_valid(e)
    }
}

/// The table row a request increments: the row enumerating its operand
/// pair, at index `256 * b + c`.
pub open spec fn request_target_row(e: ByteLookupEvent) -> int {
    256 * (e.b as int) + (e.c as int)
}

/// The column group a request belongs to.
pub open spec fn request_group(e: ByteLookupEvent) -> int {
    opcode_number(e.opcode)
}

/// How many of the requests target table row `row` in column group `g`.
pub open spec fn multiplicity_of(reqs: Seq<ByteLookupEvent>, row: int, g: int) -> nat
    decreases reqs.len(),
{
    if reqs.len() == 0 {
        0
    } else {
        multiplicity_of(reqs.drop_last(), row, g) + if request_target_row(reqs.last()) == row
            && request_group(reqs.last()) == g {
            1nat
        } else {
            0nat
        }
    }
}

/// Row `i` of the exhaustive half, `i = 256 * b + c`: the true value of
/// each materialized opcode on `(b, c)`, the multiplicities the request
/// stream accumulates, zero filter bits, and the operands themselves.
pub open spec fn table_row(i: int, reqs: Seq<ByteLookupEvent>) -> Seq<u64> {
    let b = (i / 256) as u8;
    let c = (i % 256) as u8;
    Seq::new(
        NUM_BYTE_COLS as nat,
        |j: int|
            if j < NUM_BYTE_OP_COLS as int {
                opcode_value(group_opcode(j), b, c) as u64
            } else if j < 2 * NUM_BYTE_OP_COLS as int {
                multiplicity_of(reqs, i, j - NUM_BYTE_OP_COLS as int) as u64
            } else if j < 3 * NUM_BYTE_OP_COLS as int {
                0u64
            } else if j == spec_b_index() {
                b as u64
            } else {
                c as u64
            },
    )
}

/// The request row appended for one processed request: the claimed
/// output in the request's result column, its filter bit set, the
/// operands in the shared columns, zero elsewhere.
pub open spec fn request_row(e: ByteLookupEvent) -> Seq<u64> {
    Seq::new(
        NUM_BYTE_COLS as nat,
        |j: int|
            if j == spec_opcode_index(request_group(e)) {
                e.a as u64
            } else if j == spec_filter_index(request_group(e)) {
                1u64
            } else if j == spec_b_index() {
                e.b as u64
            } else if j == spec_c_index() {
                e.c as u64
            } else {
                0u64
            },
    )
}

/// An all-zero row, used for padding; every filter bit is zero, so the
/// row contributes to no lookup.
pub open spec fn zero_row() -> Seq<u64> {
    Seq::new(NUM_BYTE_COLS as nat, |j: int| 0u64)
}

/// The least power of two that is at least `n` (and at least 1).
pub open spec fn next_power_of_two(n: nat) -> nat
    decreases n,
{
    if n <= 1 {
        1
    } else {
        2 * next_power_of_two(((n + 1) / 2) as nat)
    }
}

/// Whether `n` is a power of two.
pub open spec fn spec_is_pow2(n: nat) -> bool
    decreases n,
{
    if n == 0 {
        false
    } else if n == 1 {
        true
    } else {
        n % 2 == 0 && spec_is_pow2(n / 2)
    }
}

/// The whole generated trace, row-major: the exhaustive half with its
/// accumulated multiplicities, one request row per request in order,
/// and all-zero padding up to the next power of two.
pub open spec fn generated_trace(events: Seq<ByteLookupEvent>) -> Seq<Seq<u64>> {
    let reqs = expanded_events(events);
    let n = NUM_ROWS + reqs.len();
    Seq::new(
        next_power_of_two(n as nat),
        |i: int|
            if i < NUM_ROWS as int {
                table_row(i, reqs)
            } else if i < n {
                request_row(reqs[i - NUM_ROWS as int])
            } else {
                zero_row()
            },
    )
}

/// Builds the exhaustive half of the trace, with no multiplicities yet.
fn init_trace() -> (trace: Vec<Vec<u64>>)
    ensures
        trace@.len() == NUM_ROWS,
        forall|i: int|
            0 <= i < NUM_ROWS ==> #[trigger] trace@[i]@ == table_row(
                i,
                Seq::<ByteLookupEvent>::empty(),
            ),
{
    let mut trace: Vec<Vec<u64>> = Vec::new();
    let mut row: usize = 0;
    while row < NUM_ROWS
        invariant
            row <= NUM_ROWS,
            trace@.len() == row,
            forall|i: int|
                0 <= i < row ==> #[trigger] trace@[i]@ == table_row(
                    i,
                    Seq::<ByteLookupEvent>::empty(),
                ),
        decreases NUM_ROWS - row,
    {
        let b = (row / 256) as u8;
        let c = (row % 256) as u8;
        let leu_v: u64 = if b <= c {
            1
        } else {
            0
        };
        let mut r: Vec<u64> = Vec::new();
        r.push((b & c) as u64);
        r.push((b | c) as u64);
        r.push((b ^ c) as u64);
        r.push(leu_v);
        r.push(0);
        r.push(0);
        r.push(0);
        r.push(0);
        r.push(0);
        r.push(0);
        r.push(0);
        r.push(0);
        r.push(b as u64);
        r.push(c as u64);
        proof {
            let i = row as int;
            assert(i / 256 < 256);
            assert(r@ =~= table_row(i, Seq::<ByteLookupEvent>::empty()));
        }
        trace.push(r);
        row = row + 1;
    }
    trace
}

/// A multiplicity never exceeds the number of requests counted.
pub proof fn lemma_multiplicity_le_len(reqs: Seq<ByteLookupEvent>, row: int, g: int)
    ensures
        multiplicity_of(reqs, row, g) <= reqs.len(),
    decreases reqs.len(),
{
    if reqs.len() > 0 {
        lemma_multiplicity_le_len(reqs.drop_last(), row, g);
    }
}

/// Processes one recognized request: increments the multiplicity at its
/// target cell and returns the request row to append. `reqs` is the
/// request stream already accumulated in the table half.
fn generate_trace_row(
    event: ByteLookupEvent,
    trace: &mut Vec<Vec<u64>>,
    Ghost(reqs): Ghost<Seq<ByteLookupEvent>>,
) -> (row_values: Vec<u64>)
    requires
        request_valid(event),
        reqs.len() < 0x1000_0000,
        old(trace)@.len() >= NUM_ROWS,
        forall|i: int| 0 <= i < NUM_ROWS ==> #[trigger] old(trace)@[i]@ == table_row(i, reqs),
    ensures
        final(trace)@.len() == old(trace)@.len(),
        forall|i: int|
            0 <= i < NUM_ROWS ==> #[trigger] final(trace)@[i]@ == table_row(i, reqs.push(event)),
        forall|i: int| NUM_ROWS <= i < final(trace)@.len() ==> final(trace)@[i] == old(trace)@[i],
        row_values@ == request_row(event),
{
    let row = 256 * (event.b as usize) + (event.c as usize);
    let g = opcode_group(event.opcode);
    let mi = multiplicities_index(g);
    proof {
        lemma_multiplicity_le_len(reqs, row as int, g as int);
        assert(trace@[row as int]@[mi as int] == multiplicity_of(reqs, row as int, g as int) as u64);
    }
    let old_m = trace[row][mi];
    let mut updated = trace[row].clone();
    updated.set(mi, old_m + 1);
    let ghost pre = trace@;
    trace.set(row, updated);
    proof {
        assert(reqs.push(event).drop_last() =~= reqs);
        assert(reqs.push(event).last() == event);
        assert forall|i: int| 0 <= i < NUM_ROWS implies #[trigger] trace@[i]@ == table_row(
            i,
            reqs.push(event),
        ) by {
            if i == row as int {
                assert(trace@[i]@ =~= table_row(i, reqs.push(event)));
            } else {
                assert(trace@[i]@ == pre[i]@);
                assert(pre[i]@ =~= table_row(i, reqs.push(event)));
            }
        }
    }
    let mut row_values: Vec<u64> = Vec::new();
    let opc = event.a as u64;
    let mut j: usize = 0;
    while j < NUM_BYTE_COLS
        invariant
            j <= NUM_BYTE_COLS,
            row_values@.len() == j,
            request_valid(event),
            g == request_group(event),
            opc == event.a as u64,
            forall|k: int| 0 <= k < j ==> row_values@[k] == request_row(event)[k],
        decreases NUM_BYTE_COLS - j,
    {
        let v: u64 = if j == g {
            opc
        } else if j == 2 * NUM_BYTE_OP_COLS + g {
            1
        } else if j == NUM_BYTE_COLS - 2 {
            event.b as u64
        } else if j == NUM_BYTE_COLS - 1 {
            event.c as u64
        } else {
            0
        };
        row_values.push(v);
        j = j + 1;
    }
    proof {
        assert(row_values@ =~= request_row(event));
    }
    row_values
}

/// The error of trace generation: an input event that the exhaustive
/// table does not recognize, i.e. a claim of a false operation result
/// or an operand outside the byte range.
#[derive(Debug, Clone, Copy, PartialEq, Eq, Structural)]
pub enum ByteChipError {
    /// The offending event, the first one rejected.
    EventNotInTable(ByteLookupEvent),
}

/// Decides whether an event can be processed into the trace.
fn check_event(e: &ByteLookupEvent) -> (ok: bool)
    ensures
        ok == event_ok(*e),
{
    if e.b >= 256 || e.c >= 256 {
        return false;
    }
    let b = e.b as u8;
    let c = e.c as u8;
    match e.opcode {
        ByteOpcode::AND => e.a == (b & c) as u32,
        ByteOpcode::OR => e.a == (b | c) as u32,
        ByteOpcode::XOR => e.a == (b ^ c) as u32,
        ByteOpcode::LEU => e.a == if b <= c {
            1u32
        } else {
            0u32
        },
        ByteOpcode::U8Range => true,
    }
}

/// The least power of two at least `n` is at least `n`, at least 1,
/// and (for `n >= 2`) less than `2 * n`.
pub proof fn lemma_next_pow2_bounds(n: nat)
    ensures
        next_power_of_two(n) >= n,
        next_power_of_two(n) >= 1,
        spec_is_pow2(next_power_of_two(n)),
        n >= 2 ==> next_power_of_two(n) <= 2 * n - 2,
    decreases n,
{
    if n <= 1 {
    } else {
        let m = ((n + 1) / 2) as nat;
        lemma_next_pow2_bounds(m);
        assert(2 * m >= n);
        assert(next_power_of_two(n) == 2 * next_power_of_two(m));
        if n >= 4 {
            assert(m >= 2);
            assert(next_power_of_two(m) <= 2 * m - 2);
            assert(4 * m <= 2 * n + 2);
        }
    }
}

/// The least power of two at least `n` is least: no smaller power of
/// two reaches `n`.
pub proof fn lemma_next_pow2_least(n: nat, p: nat)
    requires
        spec_is_pow2(p),
        p >= n,
    ensures
        p >= next_power_of_two(n),
    decreases n,
{
    if n <= 1 {
        lemma_pow2_pos(p);
    } else {
        let m = ((n + 1) / 2) as nat;
        assert(p >= 2);
        assert(p % 2 == 0 && spec_is_pow2(p / 2));
        assert(2 * (p / 2) >= n);
        assert(p / 2 >= m);
        lemma_next_pow2_least(m, p / 2);
    }
}

/// A power of two is positive.
pub proof fn lemma_pow2_pos(p: nat)
    requires
        spec_is_pow2(p),
    ensures
        p >= 1,
{
}

/// Computes the least power of two at least `n`.
fn next_pow2_usize(n: usize) -> (r: usize)
    requires
        n <= 0x2000_0000,
    ensures
        r == next_power_of_two(n as nat),
        r <= 0x4000_0000,
    decreases n,
{
    if n <= 1 {
        1
    } else {
        let half = (n + 1) / 2;
        let r2 = next_pow2_usize(half);
        proof {
            lemma_next_pow2_bounds(half as nat);
        }
        2 * r2
    }
}

/// Builds one all-zero padding row.
fn make_zero_row() -> (r: Vec<u64>)
    ensures
        r@ == zero_row(),
{
    let mut r: Vec<u64> = Vec::new();
    let mut j: usize = 0;
    while j < NUM_BYTE_COLS
        invariant
            j <= NUM_BYTE_COLS,
            r@.len() == j,
            forall|k: int| 0 <= k < j ==> r@[k] == 0u64,
        decreases NUM_BYTE_COLS - j,
    {
        r.push(0);
        j = j + 1;
    }
    proof {
        assert(r@ =~= zero_row());
    }
    r
}

/// Splitting a request stream at its last event splits the expansion.
proof fn lemma_expanded_push(events: Seq<ByteLookupEvent>, e: ByteLookupEvent)
    ensures
        expanded_events(events.push(e)) == expanded_events(events) + expand_event(e),
{
    assert(events.push(e).drop_last() =~= events);
    assert(events.push(e).last() == e);
}

/// The byte-operation lookup chip. It declares no native per-row
/// constraints; its whole statement is carried by the lookup argument
/// over the trace this type generates.
#[derive(Debug, Clone, Copy, Default)]
pub struct ByteStark {}

impl ByteStark {
    /// Generates the trace, row-major: the exhaustive half of
    /// [`crate::NUM_ROWS`] rows with accumulated multiplicities, one
    /// request row per request in processing order, and all-zero
    /// padding up to the next power of two. Rejects the first event
    /// that the exhaustive table does not recognize.
    #[verifier::loop_isolation(false)]
    pub fn generate_trace_rows(&self, inputs: Vec<ByteLookupEvent>) -> (r: Result<
        Vec<Vec<u64>>,
        ByteChipError,
    >)
        requires
            inputs@.len() <= 0x0010_0000,
        ensures
            r is Ok <==> (forall|i: int| 0 <= i < inputs@.len() ==> event_ok(#[trigger] inputs@[i])),
            r matches Ok(t) ==> t.deep_view() == generated_trace(inputs@),
            r matches Err(ByteChipError::EventNotInTable(e)) ==> exists|k: int|
                0 <= k < inputs@.len() && !event_ok(#[trigger] inputs@[k]) && e == inputs@[k] && (
                forall|i: int| 0 <= i < k ==> event_ok(#[trigger] inputs@[i])),
    {
        let mut trace = init_trace();
        let ghost mut reqs: Seq<ByteLookupEvent> = Seq::empty();
        proof {
            assert(expanded_events(inputs@.take(0)) =~= Seq::<ByteLookupEvent>::empty());
        }
        let mut k: usize = 0;
        while k < inputs.len()
            invariant
                k <= inputs@.len(),
                inputs@.len() <= 0x0010_0000,
                reqs == expanded_events(inputs@.take(k as int)),
                reqs.len() <= 4 * k,
                forall|i: int| 0 <= i < k ==> event_ok(#[trigger] inputs@[i]),
                trace@.len() == NUM_ROWS + reqs.len(),
                forall|i: int| 0 <= i < NUM_ROWS ==> #[trigger] trace@[i]@ == table_row(i, reqs),
                forall|j: int|
                    0 <= j < reqs.len() ==> #[trigger] trace@[NUM_ROWS + j]@ == request_row(
                        reqs[j],
                    ),
            decreases inputs@.len() - k,
        {
            let ev = inputs[k];
            if !check_event(&ev) {
                return Err(ByteChipError::EventNotInTable(ev));
            }
            proof {
                assert(inputs@.take(k as int + 1) =~= inputs@.take(k as int).push(inputs@[k as int]));
                lemma_expanded_push(inputs@.take(k as int), ev);
            }
            let ghost reqs_at_entry = reqs;
            if matches!(ev.opcode, ByteOpcode::U8Range) {
                let e0 = ByteLookupEvent::new(ByteOpcode::LEU, 1, 0, ev.b);
                let e1 = ByteLookupEvent::new(ByteOpcode::LEU, 1, ev.b, 255);
                let e2 = ByteLookupEvent::new(ByteOpcode::LEU, 1, 0, ev.c);
                let e3 = ByteLookupEvent::new(ByteOpcode::LEU, 1, ev.c, 255);
                let r0 = generate_trace_row(e0, &mut trace, Ghost(reqs));
                trace.push(r0);
                proof {
                    reqs = reqs.push(e0);
                }
                let r1 = generate_trace_row(e1, &mut trace, Ghost(reqs));
                trace.push(r1);
                proof {
                    reqs = reqs.push(e1);
                }
                let r2 = generate_trace_row(e2, &mut trace, Ghost(reqs));
                trace.push(r2);
                proof {
                    reqs = reqs.push(e2);
                }
                let r3 = generate_trace_row(e3, &mut trace, Ghost(reqs));
                trace.push(r3);
                proof {
                    reqs = reqs.push(e3);
                    assert(reqs =~= reqs_at_entry + expand_event(ev));
                }
            } else {
                let r0 = generate_trace_row(ev, &mut trace, Ghost(reqs));
                trace.push(r0);
                proof {
                    reqs = reqs.push(ev);
                    assert(expand_event(ev) =~= seq![ev]);
                    assert(reqs =~= reqs_at_entry + expand_event(ev));
                }
            }
            k = k + 1;
        }
        proof {
            assert(inputs@.take(inputs@.len() as int) =~= inputs@);
        }
        let target = next_pow2_usize(trace.len());
        proof {
            lemma_next_pow2_bounds(trace@.len() as nat);
        }
        let ghost filled = trace@.len() as int;
        let ghost pre_pad = trace@;
        proof {
            assert forall|i: int| 0 <= i < NUM_ROWS implies #[trigger] pre_pad[i]@ == table_row(
                i,
                reqs,
            ) by {}
            assert forall|j: int| 0 <= j < reqs.len() implies #[trigger] pre_pad[NUM_ROWS + j]@
                == request_row(reqs[j]) by {}
        }
        while trace.len() < target
            invariant
                filled <= trace@.len() <= target,
                pre_pad.len() == filled,
                forall|i: int| 0 <= i < filled ==> trace@[i] == pre_pad[i],
                forall|i: int| filled <= i < trace@.len() ==> #[trigger] trace@[i]@ == zero_row(),
            decreases target - trace@.len(),
        {
            let z = make_zero_row();
            trace.push(z);
        }
        proof {
            let t = generated_trace(inputs@);
            assert(trace@.len() == t.len());
            assert forall|i: int| 0 <= i < t.len() implies #[trigger] trace@[i]@ == t[i] by {
                if i < NUM_ROWS as int {
                    assert(trace@[i] == pre_pad[i]);
                } else if i < filled {
                    let j = i - NUM_ROWS as int;
                    assert(trace@[i] == pre_pad[i]);
                    assert(NUM_ROWS as int + j == i);
                    assert(pre_pad[NUM_ROWS as int + j]@ == request_row(reqs[j]));
                }
            }
            assert(trace.deep_view() =~~= t);
        }
        Ok(trace)
    }

    /// Generates the trace in column-major form: one value vector per
    /// column, as the downstream polynomial commitment consumes it.
    /// Column `j` of the result holds cell `j` of every row of the
    /// row-major trace, in row order.
    pub fn generate_trace(&self, inputs: Vec<ByteLookupEvent>) -> (r: Result<
        Vec<Vec<u64>>,
        ByteChipError,
    >)
        requires
            inputs@.len() <= 0x0010_0000,
        ensures
            r is Ok <==> (forall|i: int| 0 <= i < inputs@.len() ==> event_ok(#[trigger] inputs@[i])),
            r matches Ok(cols) ==> {
                let t = generated_trace(inputs@);
                &&& cols@.len() == NUM_BYTE_COLS
                &&& forall|j: int| 0 <= j < NUM_BYTE_COLS ==> #[trigger] cols@[j]@.len() == t.len()
                &&& forall|j: int, i: int|
                    0 <= j < NUM_BYTE_COLS && 0 <= i < t.len() ==> #[trigger] cols@[j]@[i]
                        == t[i][j]
            },
            r matches Err(ByteChipError::EventNotInTable(e)) ==> exists|k: int|
                0 <= k < inputs@.len() && !event_ok(#[trigger] inputs@[k]) && e == inputs@[k] && (
                forall|i: int| 0 <= i < k ==> event_ok(#[trigger] inputs@[i])),
    {
        match self.generate_trace_rows(inputs) {
            Ok(rows) => {
                proof {
                    let t = generated_trace(inputs@);
                    assert forall|i: int| 0 <= i < rows@.len() implies #[trigger] rows@[i]@.len()
                        == NUM_BYTE_COLS by {
                        assert(rows.deep_view().len() == rows@.len());
                        assert(i < t.len());
                        assert(rows.deep_view()[i] == rows@[i].deep_view());
                        assert(rows@[i].deep_view() =~= rows@[i]@);
                        assert(rows@[i]@ == t[i]);
                        let reqs = expanded_events(inputs@);
                        if i < NUM_ROWS as int {
                            assert(t[i] == table_row(i, reqs));
                        } else if i < NUM_ROWS + reqs.len() {
                            assert(t[i] == request_row(reqs[i - NUM_ROWS as int]));
                        } else {
                            assert(t[i] == zero_row());
                        }
                        assert(t[i].len() == NUM_BYTE_COLS as nat);
                    }
                }
                Ok(transpose_rows(&rows))
            },
            Err(e) => Err(e),
        }
    }
}

/// Turns a row-major matrix whose rows all have the trace width into
/// its column-major transpose.
fn transpose_rows(rows: &Vec<Vec<u64>>) -> (cols: Vec<Vec<u64>>)
    requires
        forall|i: int| 0 <= i < rows@.len() ==> #[trigger] rows@[i]@.len() == NUM_BYTE_COLS,
    ensures
        cols@.len() == NUM_BYTE_COLS,
        forall|j: int| 0 <= j < NUM_BYTE_COLS ==> #[trigger] cols@[j]@.len() == rows@.len(),
        forall|j: int, i: int|
            0 <= j < NUM_BYTE_COLS && 0 <= i < rows@.len() ==> #[trigger] cols@[j]@[i]
                == rows@[i]@[j],
{
    let mut cols: Vec<Vec<u64>> = Vec::new();
    let mut j: usize = 0;
    while j < NUM_BYTE_COLS
        invariant
            j <= NUM_BYTE_COLS,
            cols@.len() == j,
            forall|i: int| 0 <= i < rows@.len() ==> #[trigger] rows@[i]@.len() == NUM_BYTE_COLS,
            forall|jj: int| 0 <= jj < j ==> #[trigger] cols@[jj]@.len() == rows@.len(),
            forall|jj: int, i: int|
                0 <= jj < j && 0 <= i < rows@.len() ==> #[trigger] cols@[jj]@[i] == rows@[i]@[jj],
        decreases NUM_BYTE_COLS - j,
    {
        let mut col: Vec<u64> = Vec::new();
        let mut i: usize = 0;
        while i < rows.len()
            invariant
                i <= rows@.len(),
                j < NUM_BYTE_COLS,
                col@.len() == i,
                forall|ii: int| 0 <= ii < rows@.len() ==> #[trigger] rows@[ii]@.len()
                    == NUM_BYTE_COLS,
                forall|ii: int| 0 <= ii < i ==> #[trigger] col@[ii] == rows@[ii]@[j as int],
            decreases rows@.len() - i,
        {
            col.push(rows[i][j]);
            i = i + 1;
        }
        cols.push(col);
        j = j + 1;
    }
    cols
}

// ---------------------------------------------------------------------------
// Laws of the generated trace.
// ---------------------------------------------------------------------------

/// The sum of `f(0) + ... + f(n - 1)`.
pub open spec fn sum_first(n: nat, f: spec_fn(int) -> nat) -> nat
    decreases n,
{
    if n == 0 {
        0
    } else {
        sum_first((n - 1) as nat, f) + f(n - 1)
    }
}

/// How many of the requests belong to column group `g`.
pub open spec fn count_group(reqs: Seq<ByteLookupEvent>, g: int) -> nat
    decreases reqs.len(),
{
    if reqs.len() == 0 {
        0
    } else {
        count_group(reqs.drop_last(), g) + if request_group(reqs.last()) == g {
            1nat
        } else {
            0nat
        }
    }
}

/// How many events of the stream are U8Range events.
pub open spec fn count_u8range(events: Seq<ByteLookupEvent>) -> nat
    decreases events.len(),
{
    if events.len() == 0 {
        0
    } else {
        count_u8range(events.drop_last()) + if events.last().opcode == ByteOpcode::U8Range {
            1nat
        } else {
            0nat
        }
    }
}

/// The sum of the multiplicity column of group `g` over the exhaustive
/// half of a trace.
pub open spec fn table_multiplicity_sum(t: Seq<Seq<u64>>, g: int) -> nat {
    sum_first(NUM_ROWS as nat, |i: int| t[i][spec_multiplicities_index(g)] as nat)
}

/// How many rows beyond the exhaustive half have the filter bit of
/// group `g` set.
pub open spec fn trace_filter_count(t: Seq<Seq<u64>>, g: int) -> nat {
    let m = if t.len() >= NUM_ROWS as nat {
        (t.len() - NUM_ROWS as nat) as nat
    } else {
        0nat
    };
    sum_first(
        m,
        |j: int|
            if t[NUM_ROWS + j][spec_filter_index(g)] == 1u64 {
                1nat
            } else {
                0nat
            },
    )
}

/// Sums of pointwise-equal functions agree.
proof fn lemma_sum_ext(n: nat, f: spec_fn(int) -> nat, h: spec_fn(int) -> nat)
    requires
        forall|i: int| 0 <= i < n ==> #[trigger] f(i) == h(i),
    ensures
        sum_first(n, f) == sum_first(n, h),
    decreases n,
{
    if n > 0 {
        lemma_sum_ext((n - 1) as nat, f, h);
    }
}

/// The sum of an everywhere-zero function is zero.
proof fn lemma_sum_zero(n: nat, f: spec_fn(int) -> nat)
    requires
        forall|i: int| 0 <= i < n ==> #[trigger] f(i) == 0,
    ensures
        sum_first(n, f) == 0,
    decreases n,
{
    if n > 0 {
        lemma_sum_zero((n - 1) as nat, f);
    }
}

/// Raising a function by one at a single point inside the range raises
/// its sum by one.
proof fn lemma_sum_bump(n: nat, f: spec_fn(int) -> nat, h: spec_fn(int) -> nat, r: int)
    requires
        0 <= r < n,
        forall|i: int| 0 <= i < n ==> #[trigger] h(i) == f(i) + (if i == r {
            1nat
        } else {
            0nat
        }),
    ensures
        sum_first(n, h) == sum_first(n, f) + 1,
    decreases n,
{
    if r == n - 1 {
        lemma_sum_ext((n - 1) as nat, f, h);
    } else {
        lemma_sum_bump((n - 1) as nat, f, h, r);
    }
}

/// A sum whose tail beyond `m` is zero equals the sum of its first `m`
/// terms.
proof fn lemma_sum_tail_zero(n: nat, m: nat, f: spec_fn(int) -> nat)
    requires
        m <= n,
        forall|j: int| m <= j < n ==> #[trigger] f(j) == 0,
    ensures
        sum_first(n, f) == sum_first(m, f),
    decreases n,
{
    if n > m {
        lemma_sum_tail_zero((n - 1) as nat, m, f);
    }
}

/// Counting a group by indexing equals counting it from the last
/// element down.
proof fn lemma_count_group_by_index(reqs: Seq<ByteLookupEvent>, g: int)
    ensures
        sum_first(
            reqs.len(),
            |j: int|
                if request_group(reqs[j]) == g {
                    1nat
                } else {
                    0nat
                },
        ) == count_group(reqs, g),
    decreases reqs.len(),
{
    if reqs.len() > 0 {
        let s = reqs.drop_last();
        lemma_count_group_by_index(s, g);
        lemma_sum_ext(
            s.len(),
            |j: int|
                if request_group(reqs[j]) == g {
                    1nat
                } else {
                    0nat
                },
            |j: int|
                if request_group(s[j]) == g {
                    1nat
                } else {
                    0nat
                },
        );
    }
}

/// The multiplicities a request stream lays down over the exhaustive
/// rows sum to the number of its requests in that group.
proof fn lemma_mult_sum(reqs: Seq<ByteLookupEvent>, g: int)
    requires
        forall|j: int| 0 <= j < reqs.len() ==> request_valid(#[trigger] reqs[j]),
    ensures
        sum_first(NUM_ROWS as nat, |i: int| multiplicity_of(reqs, i, g)) == count_group(reqs, g),
    decreases reqs.len(),
{
    let fr = |i: int| multiplicity_of(reqs, i, g);
    if reqs.len() == 0 {
        lemma_sum_zero(NUM_ROWS as nat, fr);
    } else {
        let s = reqs.drop_last();
        let q = reqs.last();
        lemma_mult_sum(s, g);
        let fs = |i: int| multiplicity_of(s, i, g);
        if request_group(q) == g {
            let r = request_target_row(q);
            assert(0 <= r < NUM_ROWS as int);
            lemma_sum_bump(NUM_ROWS as nat, fs, fr, r);
        } else {
            lemma_sum_ext(NUM_ROWS as nat, fs, fr);
        }
    }
}

/// Every request expanded from acceptable events is one the exhaustive
/// table recognizes.
pub proof fn lemma_expanded_all_valid(events: Seq<ByteLookupEvent>)
    requires
        forall|i: int| 0 <= i < events.len() ==> event_ok(#[trigger] events[i]),
    ensures
        forall|j: int|
            0 <= j < expanded_events(events).len() ==> request_valid(
                #[trigger] expanded_events(events)[j],
            ),
    decreases events.len(),
{
    if events.len() > 0 {
        let s = events.drop_last();
        let e = events.last();
        lemma_expanded_all_valid(s);
        assert(event_ok(e));
        assert forall|j: int|
            0 <= j < expanded_events(events).len() implies request_valid(
            #[trigger] expanded_events(events)[j],
        ) by {
            if j < expanded_events(s).len() {
            } else {
                assert(expanded_events(events)[j] == expand_event(e)[j - expanded_events(s).len()]);
            }
        }
    }
}

/// Expansion keeps at most four requests per event.
pub proof fn lemma_expanded_len_le(events: Seq<ByteLookupEvent>)
    ensures
        expanded_events(events).len() <= 4 * events.len(),
    decreases events.len(),
{
    if events.len() > 0 {
        lemma_expanded_len_le(events.drop_last());
    }
}

/// Law: one request per event, four per U8Range event.
pub proof fn lemma_expanded_len(events: Seq<ByteLookupEvent>)
    ensures
        expanded_events(events).len() == events.len() + 3 * count_u8range(events),
    decreases events.len(),
{
    if events.len() > 0 {
        lemma_expanded_len(events.drop_last());
    }
}

/// Law: no U8Range request is ever materialized; the expansion of any
/// event stream consists of column-group opcodes only.
pub proof fn lemma_no_u8range_materialized(events: Seq<ByteLookupEvent>)
    ensures
        forall|j: int|
            0 <= j < expanded_events(events).len() ==> (#[trigger] expanded_events(events)[j]).opcode
                != ByteOpcode::U8Range,
    decreases events.len(),
{
    if events.len() > 0 {
        let s = events.drop_last();
        let e = events.last();
        lemma_no_u8range_materialized(s);
        assert forall|j: int|
            0 <= j < expanded_events(events).len() implies (#[trigger] expanded_events(
            events,
        )[j]).opcode != ByteOpcode::U8Range by {
            if j >= expanded_events(s).len() {
                assert(expanded_events(events)[j] == expand_event(e)[j - expanded_events(s).len()]);
            }
        }
    }
}

/// Law: a U8Range event with byte operands expands into exactly four
/// LEU requests, each of which the exhaustive table recognizes.
pub proof fn lemma_u8range_decomposition(e: ByteLookupEvent)
    requires
        e.opcode == ByteOpcode::U8Range,
        e.b < 256,
        e.c < 256,
    ensures
        expand_event(e).len() == 4,
        forall|j: int|
            0 <= j < 4 ==> request_valid(#[trigger] expand_event(e)[j]) && expand_event(e)[j].opcode
                == ByteOpcode::LEU,
{
    assert forall|j: int|
        0 <= j < 4 implies request_valid(#[trigger] expand_event(e)[j]) && expand_event(e)[j].opcode
        == ByteOpcode::LEU by {
        if j == 0 {
            assert(expand_event(e)[0] == leu_event(1, 0, e.b));
        } else if j == 1 {
            assert(expand_event(e)[1] == leu_event(1, e.b, 255));
        } else if j == 2 {
            assert(expand_event(e)[2] == leu_event(1, 0, e.c));
        } else {
            assert(expand_event(e)[3] == leu_event(1, e.c, 255));
        }
    }
}

/// Law: every row of the exhaustive half carries the true opcode values
/// of its operand pair. Row `256 * b + c` holds `b & c`, `b | c`,
/// `b ^ c` and the truth of `b <= c` in its result columns, and the
/// operands in the shared columns, whatever events were processed.
pub proof fn lemma_table_exhaustive(events: Seq<ByteLookupEvent>, b: u8, c: u8)
    ensures
        generated_trace(events).len() >= NUM_ROWS,
        generated_trace(events)[256 * (b as int) + (c as int)][spec_opcode_index(0)] == (b & c)
            as u64,
        generated_trace(events)[256 * (b as int) + (c as int)][spec_opcode_index(1)] == (b | c)
            as u64,
        generated_trace(events)[256 * (b as int) + (c as int)][spec_opcode_index(2)] == (b ^ c)
            as u64,
        generated_trace(events)[256 * (b as int) + (c as int)][spec_opcode_index(3)] == (if b <= c {
            1u64
        } else {
            0u64
        }),
        generated_trace(events)[256 * (b as int) + (c as int)][spec_b_index()] == b as u64,
        generated_trace(events)[256 * (b as int) + (c as int)][spec_c_index()] == c as u64,
{
    let reqs = expanded_events(events);
    lemma_next_pow2_bounds((NUM_ROWS + reqs.len()) as nat);
    let i = 256 * (b as int) + (c as int);
    assert(0 <= i < NUM_ROWS as int);
    vstd::arithmetic::div_mod::lemma_fundamental_div_mod_converse(i, 256, b as int, c as int);
    assert(generated_trace(events)[i] == table_row(i, reqs));
}

/// Law: for every column group, the multiplicities recorded in the
/// exhaustive half of a generated trace sum to the number of rows
/// beyond it whose filter bit for that group is set.
pub proof fn lemma_multiplicity_soundness(events: Seq<ByteLookupEvent>, g: int)
    requires
        0 <= g < NUM_BYTE_OP_COLS,
        4 * events.len() <= u64::MAX,
        forall|i: int| 0 <= i < events.len() ==> event_ok(#[trigger] events[i]),
    ensures
        table_multiplicity_sum(generated_trace(events), g) == trace_filter_count(
            generated_trace(events),
            g,
        ),
{
    let t = generated_trace(events);
    let reqs = expanded_events(events);
    lemma_expanded_all_valid(events);
    lemma_expanded_len_le(events);
    lemma_next_pow2_bounds((NUM_ROWS + reqs.len()) as nat);
    assert(t.len() >= NUM_ROWS + reqs.len());

    // The multiplicity side.
    let f_cell = |i: int| t[i][spec_multiplicities_index(g)] as nat;
    let f_mult = |i: int| multiplicity_of(reqs, i, g);
    assert forall|i: int| 0 <= i < NUM_ROWS as nat implies #[trigger] f_cell(i) == f_mult(i) by {
        assert(t[i] == table_row(i, reqs));
        lemma_multiplicity_le_len(reqs, i, g);
        assert(table_row(i, reqs)[spec_multiplicities_index(g)] == multiplicity_of(reqs, i, g)
            as u64);
    }
    lemma_sum_ext(NUM_ROWS as nat, f_cell, f_mult);
    lemma_mult_sum(reqs, g);

    // The filter side.
    let m = (t.len() - NUM_ROWS as nat) as nat;
    let f_filt = |j: int|
        if t[NUM_ROWS + j][spec_filter_index(g)] == 1u64 {
            1nat
        } else {
            0nat
        };
    let f_grp = |j: int|
        if request_group(reqs[j]) == g {
            1nat
        } else {
            0nat
        };
    assert forall|j: int| reqs.len() <= j < m implies #[trigger] f_filt(j) == 0 by {
        assert(t[NUM_ROWS + j] == zero_row());
    }
    lemma_sum_tail_zero(m, reqs.len(), f_filt);
    assert forall|j: int| 0 <= j < reqs.len() implies #[trigger] f_filt(j) == f_grp(j) by {
        assert(t[NUM_ROWS + j] == request_row(reqs[j]));
        let e = reqs[j];
        if request_group(e) == g {
            assert(request_row(e)[spec_filter_index(g)] == 1u64);
        } else {
            assert(request_row(e)[spec_filter_index(g)] == 0u64);
        }
    }
    lemma_sum_ext(reqs.len(), f_filt, f_grp);
    lemma_count_group_by_index(reqs, g);
}

/// Law: the combined-value packing `result + 256 * b + 65536 * c` is
/// injective over byte-valued triples.
pub proof fn lemma_combined_injective(r1: int, b1: int, c1: int, r2: int, b2: int, c2: int)
    requires
        0 <= r1 < 256,
        0 <= b1 < 256,
        0 <= c1 < 256,
        0 <= r2 < 256,
        0 <= b2 < 256,
        0 <= c2 < 256,
        r1 + 256 * b1 + 65536 * c1 == r2 + 256 * b2 + 65536 * c2,
    ensures
        r1 == r2,
        b1 == b2,
        c1 == c2,
{
}

/// Law: a generated trace is padded to exactly the least power of two
/// holding the exhaustive half and one row per request (one per event,
/// four per U8Range event), and every padding row is all zero, so no
/// padding row contributes to any lookup.
pub proof fn lemma_trace_padding(events: Seq<ByteLookupEvent>)
    ensures
        generated_trace(events).len() == next_power_of_two(
            (NUM_ROWS + expanded_events(events).len()) as nat,
        ),
        spec_is_pow2(generated_trace(events).len()),
        expanded_events(events).len() == events.len() + 3 * count_u8range(events),
        forall|i: int|
            NUM_ROWS + expanded_events(events).len() <= i < generated_trace(events).len()
                ==> #[trigger] generated_trace(events)[i] == zero_row(),
{
    lemma_next_pow2_bounds((NUM_ROWS + expanded_events(events).len()) as nat);
    lemma_expanded_len(events);
}

} // verus!
