//! Runtime semantics of the generated decode routines, over an abstract
//! view of the wire: each slot of the duplicate-eliding account array is
//! either a full record with a declared variable length, or a one-byte
//! back-reference to an earlier descriptor-table entry. Two cooperating
//! cursors thread through every slot operation: the input cursor marching
//! through the record region, and the descriptor-table cursor advancing by
//! one fixed stride per slot, decoded or duplicated.

use vstd::prelude::*;

verus! {

use crate::plan::{PlanTerminal, SlotPlan, build_decode_plan};
use crate::ACCOUNTS_PTR;

/// Fixed header of one account record.
pub const ACCOUNT_INFO_SIZE: u64 = 88;

/// Largest variable data region one record may declare.
pub const MAX_PERMITTED_ACCOUNT_DATA_SIZE: u64 = 10240;

/// Fixed trailer of one account record.
pub const RENT_EPOCH_SIZE: u64 = 8;

/// Skip constant for non-duplicates: header, maximum variable data and
/// trailer, plus 7 so that clearing the low three bits of the advanced
/// cursor rounds the record's total size up to the next 8-byte boundary.
pub const TOTAL_ACCOUNT_DATA_TO_SKIP: u64 = ACCOUNT_INFO_SIZE + MAX_PERMITTED_ACCOUNT_DATA_SIZE
    + RENT_EPOCH_SIZE + 7;

/// Marker byte that signals a full record; any other marker value is the
/// index of the earlier descriptor-table entry the slot repeats.
pub const NON_DUP_MARKER: u8 = 255;

/// Bytes one duplicate reference occupies on the wire.
pub const DUP_REF_SIZE: u64 = 8;

/// Stride of one descriptor-table entry.
pub const TABLE_STRIDE: u64 = 8;

/// Largest input-cursor advance one slot can cause: the skip constant plus
/// the largest declarable variable length.
pub const MAX_SLOT_ADVANCE: u64 = TOTAL_ACCOUNT_DATA_TO_SKIP + MAX_PERMITTED_ACCOUNT_DATA_SIZE;

/// One slot of the account region as the decoder observes it: the duplicate
/// marker byte read at its fixed offset inside the slot, and, for a full
/// record, the record's declared variable data length.
#[derive(Clone, Copy, PartialEq, Eq, Structural, Debug)]
pub struct SlotEntry {
    pub marker: u8,
    pub data_len: u64,
}

impl SlotEntry {
    /// The slot carries a full record rather than a duplicate reference.
    pub open spec fn is_full(self) -> bool {
        self.marker == NON_DUP_MARKER
    }
}

/// The one live piece of runtime state of a decode invocation, exclusively
/// owned by the generated routine for its whole duration: the input cursor,
/// and the descriptor table built so far (one pointer per decoded slot, in
/// slot order).
pub struct ParserState {
    pub input_cursor: u64,
    pub table: Vec<u64>,
}

impl ParserState {
    /// Address of the next descriptor-table slot to be written: the table
    /// base plus one stride per entry already written.
    pub open spec fn table_cursor(self) -> int {
        ACCOUNTS_PTR + self.table@.len() * TABLE_STRIDE
    }
}

/// Input-cursor advance of one full record starting at `c`: the skip
/// constant plus the declared variable length, rounded to the next 8-byte
/// boundary (the constant's built-in `+ 7` makes the rounding round up).
pub open spec fn full_advance(c: int, data_len: int) -> int {
    ((c + TOTAL_ACCOUNT_DATA_TO_SKIP + data_len) / 8) * 8
}

/// What the design trusts of slot `i` of the wire: a full record declares no
/// more variable data than the permitted maximum, and a duplicate marker
/// indexes an already-written table entry, never a forward reference.
pub open spec fn slot_wf(input: Seq<SlotEntry>, i: int) -> bool {
    if input[i].is_full() {
        input[i].data_len <= MAX_PERMITTED_ACCOUNT_DATA_SIZE
    } else {
        input[i].marker < i
    }
}

/// Slot well-formedness over the `count` slots starting at `start`.
pub open spec fn slots_wf(input: Seq<SlotEntry>, start: int, count: int) -> bool {
    forall|i: int| start <= i <= start + count - 1 ==> #[trigger] slot_wf(input, i)
}

/// Input-cursor value after the first `k` of the slots starting at `start`,
/// beginning from cursor `c0`.
pub open spec fn cursor_after(input: Seq<SlotEntry>, start: int, k: int, c0: int) -> int
    decreases k,
{
    if k <= 0 {
        c0
    } else {
        let c = cursor_after(input, start, k - 1, c0);
        let e = input[start + k - 1];
        if e.is_full() {
            full_advance(c, e.data_len as int)
        } else {
            c + DUP_REF_SIZE
        }
    }
}

/// Descriptor table after the first `k` of the slots starting at `start`:
/// a full record appends the cursor value where the record begins; a
/// duplicate appends an exact copy of the entry its marker indexes. Slot
/// order in the table matches slot order on the wire.
pub open spec fn table_after(
    input: Seq<SlotEntry>,
    start: int,
    k: int,
    c0: int,
    t0: Seq<u64>,
) -> Seq<u64>
    decreases k,
{
    if k <= 0 {
        t0
    } else {
        let t = table_after(input, start, k - 1, c0, t0);
        let c = cursor_after(input, start, k - 1, c0);
        let e = input[start + k - 1];
        if e.is_full() {
            t.push(c as u64)
        } else {
            t.push(t[e.marker as int])
        }
    }
}

/// Rounding to the 8-byte boundary below never gains and loses under 8.
proof fn lemma_round8(x: int)
    requires
        0 <= x,
    ensures
        x - 7 <= (x / 8) * 8 <= x,
{
}

/// The input cursor never moves backwards, and gains at most
/// `MAX_SLOT_ADVANCE` per slot.
pub proof fn lemma_cursor_bounds(input: Seq<SlotEntry>, start: int, k: int, c0: int)
    requires
        0 <= k,
        0 <= c0,
        slots_wf(input, start, k),
    ensures
        c0 <= cursor_after(input, start, k, c0) <= c0 + k * MAX_SLOT_ADVANCE,
    decreases k,
{
    if k > 0 {
        lemma_cursor_bounds(input, start, k - 1, c0);
        let c = cursor_after(input, start, k - 1, c0);
        let e = input[start + k - 1];
        assert(slot_wf(input, start + k - 1));
        assert((k - 1) * MAX_SLOT_ADVANCE + MAX_SLOT_ADVANCE == k * MAX_SLOT_ADVANCE)
            by (nonlinear_arith);
        if e.is_full() {
            lemma_round8(c + TOTAL_ACCOUNT_DATA_TO_SKIP + e.data_len);
            assert(c <= cursor_after(input, start, k, c0) <= c + MAX_SLOT_ADVANCE);
        } else {
            assert(cursor_after(input, start, k, c0) == c + DUP_REF_SIZE);
        }
    }
}

/// A decode of zero slots is a no-op: table and cursor are untouched.
pub proof fn lemma_zero_slots(input: Seq<SlotEntry>, start: int, c0: int, t0: Seq<u64>)
    ensures
        cursor_after(input, start, 0, c0) == c0,
        table_after(input, start, 0, c0, t0) == t0,
{
}

/// Decoding slots in sequence composes: the first `k1` slots followed by the
/// next `k2`, each part continuing from the cursor and table the part before
/// it left, decode exactly as the `k1 + k2` slots in one piece.
pub proof fn lemma_decode_split(
    input: Seq<SlotEntry>,
    start: int,
    k1: int,
    k2: int,
    c0: int,
    t0: Seq<u64>,
)
    requires
        0 <= k1,
        0 <= k2,
    ensures
        cursor_after(input, start, k1 + k2, c0) == cursor_after(
            input,
            start + k1,
            k2,
            cursor_after(input, start, k1, c0),
        ),
        table_after(input, start, k1 + k2, c0, t0) == table_after(
            input,
            start + k1,
            k2,
            cursor_after(input, start, k1, c0),
            table_after(input, start, k1, c0, t0),
        ),
    decreases k2,
{
    if k2 > 0 {
        lemma_decode_split(input, start, k1, k2 - 1, c0, t0);
    }
}

/// Per-entry shape of a whole decode from an empty table: a full record's
/// slot holds the cursor value where the record begins, and a duplicate's
/// slot holds an exact copy of the entry at its referenced prior index.
pub proof fn lemma_table_entries(input: Seq<SlotEntry>, n: int, c0: int)
    requires
        0 <= n,
        slots_wf(input, 0, n),
    ensures
        table_after(input, 0, n, c0, Seq::empty()).len() == n,
        forall|i: int|
            0 <= i < n && (#[trigger] input[i]).is_full() ==> table_after(
                input,
                0,
                n,
                c0,
                Seq::empty(),
            )[i] == cursor_after(input, 0, i, c0) as u64,
        forall|i: int|
            0 <= i < n && !(#[trigger] input[i]).is_full() ==> table_after(
                input,
                0,
                n,
                c0,
                Seq::empty(),
            )[i] == table_after(input, 0, n, c0, Seq::empty())[input[i].marker as int],
    decreases n,
{
    if n > 0 {
        lemma_table_entries(input, n - 1, c0);
        let t_prev = table_after(input, 0, n - 1, c0, Seq::empty());
        let t = table_after(input, 0, n, c0, Seq::empty());
        assert(slot_wf(input, n - 1));
        assert forall|i: int| 0 <= i < n && (#[trigger] input[i]).is_full() implies t[i]
            == cursor_after(input, 0, i, c0) as u64 by {
            if i < n - 1 {
                assert(t[i] == t_prev[i]);
            }
        }
        assert forall|i: int| 0 <= i < n && !(#[trigger] input[i]).is_full() implies t[i] == t[
            input[i].marker as int
        ] by {
            assert(slot_wf(input, i));
            if i < n - 1 {
                assert(t[i] == t_prev[i]);
                assert(t[input[i].marker as int] == t_prev[input[i].marker as int]);
            }
        }
    }
}

/// Run the slot operations of a generated plan over the slots of `input`
/// that begin where the descriptor table ends, mutating the one live
/// `ParserState` in plan order. Returns whether the plan's terminal
/// completes the routine.
#[verifier::loop_isolation(false)]
pub fn execute_plan(input: &Vec<SlotEntry>, plan: &SlotPlan, state: &mut ParserState) -> (completed:
    bool)
    requires
        old(state).table@.len() + plan.ops@.len() <= input@.len(),
        slots_wf(input@, old(state).table@.len() as int, plan.ops@.len() as int),
        forall|i: int|
            0 <= i < plan.ops@.len() && !(#[trigger] plan.ops@[i]).emits_duplicate_check
                ==> input@[old(state).table@.len() + i].is_full(),
        old(state).input_cursor + plan.ops@.len() * MAX_SLOT_ADVANCE <= u64::MAX,
    ensures
        final(state).table@.len() == old(state).table@.len() + plan.ops@.len(),
        final(state).table_cursor() == old(state).table_cursor() + plan.ops@.len()
            * TABLE_STRIDE,
        final(state).table@ == table_after(
            input@,
            old(state).table@.len() as int,
            plan.ops@.len() as int,
            old(state).input_cursor as int,
            old(state).table@,
        ),
        final(state).input_cursor as int == cursor_after(
            input@,
            old(state).table@.len() as int,
            plan.ops@.len() as int,
            old(state).input_cursor as int,
        ),
        completed == (plan.terminal is Complete),
{
    let ghost start = old(state).table@.len() as int;
    let ghost c0 = old(state).input_cursor as int;
    let ghost t0 = old(state).table@;
    let count = plan.ops.len();
    let mut i: usize = 0;
    while i < count
        invariant
            i <= count,
            state.table@.len() == start + i,
            state.table@ == table_after(input@, start, i as int, c0, t0),
            state.input_cursor as int == cursor_after(input@, start, i as int, c0),
        decreases count - i,
    {
        proof {
            lemma_cursor_bounds(input@, start, i as int, c0);
            assert(slot_wf(input@, start + i));
            assert(!(plan.ops@[i as int]).emits_duplicate_check ==> input@[start
                + i].is_full());
            assert(i as int * MAX_SLOT_ADVANCE + MAX_SLOT_ADVANCE <= count
                * MAX_SLOT_ADVANCE) by (nonlinear_arith)
                requires i as int + 1 <= count as int;
        }
        let slot = state.table.len();
        let entry = input[slot];
        let op = plan.ops[i];
        if op.emits_duplicate_check && entry.marker != NON_DUP_MARKER {
            // Duplicate: copy the referenced prior descriptor into the
            // current table slot, advance past the fixed-size reference.
            let j = entry.marker as usize;
            let ptr = state.table[j];
            state.table.push(ptr);
            state.input_cursor = state.input_cursor + DUP_REF_SIZE;
        } else {
            // Full record: its descriptor is the cursor value where it
            // begins; advance by the skip constant plus the declared
            // variable length, rounded to the next 8-byte word boundary.
            let ptr = state.input_cursor;
            state.table.push(ptr);
            let sum = state.input_cursor + TOTAL_ACCOUNT_DATA_TO_SKIP + entry.data_len;
            proof {
                lemma_round8(sum as int);
            }
            state.input_cursor = sum / 8 * 8;
        }
        i = i + 1;
    }
    match plan.terminal {
        PlanTerminal::Complete => true,
        PlanTerminal::FallThrough => false,
    }
}

/// Decode `count` records with the plain fully-unrolled plan: the whole
/// routine is one plan that opens the program (its first slot skips the
/// duplicate check) and whose terminal completes the decode.
pub fn entrypoint_process(input: &Vec<SlotEntry>, count: usize, state: &mut ParserState) -> (
    completed: bool)
    requires
        old(state).table@.len() == 0,
        count <= input@.len(),
        slots_wf(input@, 0, count as int),
        count > 0 ==> input@[0].is_full(),
        old(state).input_cursor + count * MAX_SLOT_ADVANCE <= u64::MAX,
    ensures
        final(state).table@ == table_after(
            input@,
            0,
            count as int,
            old(state).input_cursor as int,
            Seq::empty(),
        ),
        final(state).input_cursor as int == cursor_after(input@, 0, count as int, old(
            state,
        ).input_cursor as int),
        completed,
{
    proof {
        assert(old(state).table@ =~= Seq::<u64>::empty());
    }
    let plan = build_decode_plan(count, true, false);
    execute_plan(input, &plan, state)
}

} // verus!
