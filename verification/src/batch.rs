//! Batched decode strategy: decode the first fixed-size batch with one
//! unrolled body, loop over the remaining full batches reusing one regular
//! batch body (the one runtime loop of the whole design), then route the
//! leftover remainder count through a dispatch tree to an exactly-sized
//! remainder routine that completes the decode. The observable effect is
//! exactly that of the plain fully-unrolled plan for the same total, while
//! the generated code stays bounded by the batch size.

use vstd::prelude::*;

verus! {

use vstd::arithmetic::div_mod::lemma_fundamental_div_mod;

use crate::decode::{
    MAX_SLOT_ADVANCE, ParserState, SlotEntry, cursor_after, entrypoint_process, execute_plan,
    lemma_cursor_bounds, lemma_decode_split, slots_wf, table_after,
};
use crate::dispatch::{DispatchTree, HandlerFamily};
use crate::plan::build_decode_plan;

/// Configured maximum record count the entrypoint accepts.
pub const MAX_ACCOUNTS: usize = 16;

/// Counts at or above this use the batched path; counts below it the plain
/// fully-unrolled path.
pub const BATCH_THRESHOLD: usize = 9;

/// Slots per generated batch body.
pub const BATCH_SIZE: usize = 8;

/// Distinguished status returned for a count over the configured maximum.
pub const COUNT_OVER_MAX: u32 = u32::MAX;

/// Decode `total` records in batches of `batch`: one program-first batch
/// body, then `total / batch - 1` runtime iterations of a regular batch
/// body, then the remainder `total % batch` dispatched through a tree over
/// `[0, batch - 1]` to a plan of exactly its size, which completes the
/// routine. Decodes exactly what the plain fully-unrolled plan for `total`
/// decodes. Counts below one full batch belong on the plain path: the first
/// batch body assumes `batch` records are present.
#[verifier::loop_isolation(false)]
pub fn entrypoint_process_batched(
    input: &Vec<SlotEntry>,
    total: usize,
    batch: usize,
    state: &mut ParserState,
) -> (completed: bool)
    requires
        old(state).table@.len() == 0,
        1 <= batch <= total,
        total <= input@.len(),
        slots_wf(input@, 0, total as int),
        input@[0].is_full(),
        old(state).input_cursor + total * MAX_SLOT_ADVANCE <= u64::MAX,
    ensures
        final(state).table@ == table_after(
            input@,
            0,
            total as int,
            old(state).input_cursor as int,
            Seq::empty(),
        ),
        final(state).input_cursor as int == cursor_after(input@, 0, total as int, old(
            state,
        ).input_cursor as int),
        completed,
{
    let ghost tot = total as int;
    let ghost bt = batch as int;
    let ghost c0 = old(state).input_cursor as int;
    proof {
        lemma_fundamental_div_mod(tot, bt);
        assert(tot / bt >= 1 && 0 <= tot % bt < bt) by (nonlinear_arith)
            requires 1 <= bt <= tot;
        assert((tot / bt) * bt == tot - tot % bt) by (nonlinear_arith)
            requires tot == bt * (tot / bt) + tot % bt;
        assert(old(state).table@ =~= Seq::<u64>::empty());
    }
    let full_batches_after_first = total / batch - 1;
    let remainder = total % batch;
    let ghost q = tot / bt;

    // The first batch body: program-first, so its slot 0 skips the
    // duplicate check; it falls through into what follows.
    let first_body = build_decode_plan(batch, true, true);
    proof {
        assert(bt * MAX_SLOT_ADVANCE <= tot * MAX_SLOT_ADVANCE) by (nonlinear_arith)
            requires bt <= tot, MAX_SLOT_ADVANCE >= 0;
    }
    let _ = execute_plan(input, &first_body, state);

    // The regular batch body, reused by every loop iteration: every slot
    // checked, falling through.
    let regular_body = build_decode_plan(batch, false, true);
    let mut b: usize = 0;
    while b < full_batches_after_first
        invariant
            b <= full_batches_after_first,
            state.table@.len() == (b as int + 1) * bt,
            state.table@ == table_after(input@, 0, (b as int + 1) * bt, c0, Seq::empty()),
            state.input_cursor as int == cursor_after(input@, 0, (b as int + 1) * bt, c0),
        decreases full_batches_after_first - b,
    {
        let ghost done = (b as int + 1) * bt;
        proof {
            assert(done + bt == (b as int + 2) * bt && (b as int + 2) * bt <= q * bt)
                by (nonlinear_arith)
                requires done == (b as int + 1) * bt, b as int + 2 <= q, 1 <= bt;
            lemma_cursor_bounds(input@, 0, done, c0);
            assert(done * MAX_SLOT_ADVANCE + bt * MAX_SLOT_ADVANCE == (done + bt)
                * MAX_SLOT_ADVANCE && (done + bt) * MAX_SLOT_ADVANCE <= tot
                * MAX_SLOT_ADVANCE) by (nonlinear_arith)
                requires done + bt <= tot, 0 <= done, 0 <= bt, MAX_SLOT_ADVANCE >= 0;
        }
        let _ = execute_plan(input, &regular_body, state);
        proof {
            lemma_decode_split(input@, 0, done, bt, c0, Seq::empty());
        }
        b = b + 1;
    }

    // The remainder, a runtime value in [0, batch - 1], routed through a
    // dispatch tree whose leaf for r invokes the plan of exactly r slots;
    // that plan's terminal completes the whole routine. A remainder of 0
    // reaches the empty plan, which completes immediately.
    let ghost done = (full_batches_after_first as int + 1) * bt;
    proof {
        assert(done == q * bt) by (nonlinear_arith)
            requires done == ((q - 1) + 1) * bt;
        assert(done == tot - tot % bt);
        lemma_cursor_bounds(input@, 0, done, c0);
        assert(done * MAX_SLOT_ADVANCE + (tot % bt) * MAX_SLOT_ADVANCE == tot
            * MAX_SLOT_ADVANCE) by (nonlinear_arith)
            requires done + tot % bt == tot, 0 <= done, 0 <= tot % bt;
    }
    let tree = DispatchTree::new(batch - 1, 0);
    let (r, _family) = tree.dispatch(remainder);
    let tail = build_decode_plan(r, false, false);
    let completed = execute_plan(input, &tail, state);
    proof {
        lemma_decode_split(input@, 0, done, tot % bt, c0, Seq::empty());
    }
    completed
}

/// The entrypoint adapter's decision core. A count over the configured
/// maximum returns the distinguished failure status at once, with no
/// descriptor written and the state untouched. Any other count is routed
/// through the dispatch tree over `[0, MAX_ACCOUNTS]` with the batching
/// threshold: counts below the threshold decode fully unrolled, counts at
/// or above it decode batched. Returns 0 once the decode completes.
pub fn entrypoint(input: &Vec<SlotEntry>, num_accounts: usize, state: &mut ParserState) -> (
    status: u32)
    requires
        old(state).table@.len() == 0,
        num_accounts <= MAX_ACCOUNTS ==> num_accounts <= input@.len(),
        num_accounts <= MAX_ACCOUNTS ==> slots_wf(input@, 0, num_accounts as int),
        0 < num_accounts <= MAX_ACCOUNTS ==> input@[0].is_full(),
        num_accounts <= MAX_ACCOUNTS ==> old(state).input_cursor + num_accounts
            * MAX_SLOT_ADVANCE <= u64::MAX,
    ensures
        num_accounts > MAX_ACCOUNTS ==> status == COUNT_OVER_MAX && *final(state) == *old(
            state,
        ),
        num_accounts <= MAX_ACCOUNTS ==> status == 0 && final(state).table@ == table_after(
            input@,
            0,
            num_accounts as int,
            old(state).input_cursor as int,
            Seq::empty(),
        ) && final(state).input_cursor as int == cursor_after(input@, 0, num_accounts as int, old(
            state,
        ).input_cursor as int),
{
    if num_accounts > MAX_ACCOUNTS {
        return COUNT_OVER_MAX;
    }
    let tree = DispatchTree::new(MAX_ACCOUNTS, BATCH_THRESHOLD);
    let (count, family) = tree.dispatch(num_accounts);
    match family {
        HandlerFamily::Low => {
            let _ = entrypoint_process(input, count, state);
        },
        HandlerFamily::High => {
            let _ = entrypoint_process_batched(input, count, BATCH_SIZE, state);
        },
    }
    0
}

} // verus!
