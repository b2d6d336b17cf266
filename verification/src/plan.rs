//! Decode-plan generator: for a literal record count, the exact ordered
//! sequence of per-record slot operations, with the first slot of the whole
//! routine marked specially and a terminal action that either completes the
//! routine or falls through into code composed after it.

use vstd::prelude::*;

verus! {

/// One slot's generated operation.
#[derive(Clone, Copy, PartialEq, Eq, Structural, Debug)]
pub struct SlotOp {
    /// The slot is the very first of the whole routine. The wire format
    /// guarantees that slot can never be a duplicate reference, so its
    /// decode skips the duplicate check.
    pub is_first_slot: bool,
    /// A duplicate-marker check guards the slot's decode: every slot but
    /// the routine's first, including slot 0 of a reused batch body.
    pub emits_duplicate_check: bool,
}

/// The action that ends a plan.
#[derive(Clone, Copy, PartialEq, Eq, Structural, Debug)]
pub enum PlanTerminal {
    /// The plan completes the whole decode routine.
    Complete,
    /// The plan falls through into whatever is composed after it (a
    /// reusable batch body inside a loop, or a prefix of a larger routine).
    FallThrough,
}

/// Ordered slot operations for a literal record count, one per slot, plus
/// the terminal action.
pub struct SlotPlan {
    pub ops: Vec<SlotOp>,
    pub terminal: PlanTerminal,
}

/// The operations a plan of `count` slots holds: only slot 0, and only in a
/// plan that opens the whole routine, skips the duplicate check.
pub open spec fn plan_ops(count: int, program_first: bool) -> Seq<SlotOp> {
    Seq::new(
        count as nat,
        |i: int|
            SlotOp {
                is_first_slot: i == 0 && program_first,
                emits_duplicate_check: !(i == 0 && program_first),
            },
    )
}

/// Lay out the decode plan for a literal record count. A count of `0` is
/// legal and yields only the terminal action. `program_first` marks the
/// plan as the one that opens the whole routine (no prior cursor advance);
/// `suppress_return` turns the terminal into a fall-through so the plan can
/// serve as a reusable batch body or a prefix of a larger composition.
pub fn build_decode_plan(count: usize, program_first: bool, suppress_return: bool) -> (p:
    SlotPlan)
    ensures
        p.ops@ == plan_ops(count as int, program_first),
        p.terminal == (if suppress_return {
            PlanTerminal::FallThrough
        } else {
            PlanTerminal::Complete
        }),
{
    let mut ops: Vec<SlotOp> = Vec::new();
    let mut i: usize = 0;
    while i < count
        invariant
            i <= count,
            ops@ == plan_ops(i as int, program_first),
        decreases count - i,
    {
        let first = i == 0 && program_first;
        ops.push(SlotOp { is_first_slot: first, emits_duplicate_check: !first });
        i = i + 1;
        proof {
            assert(ops@ =~= plan_ops(i as int, program_first));
        }
    }
    proof {
        assert(ops@ =~= plan_ops(count as int, program_first));
    }
    let terminal = if suppress_return {
        PlanTerminal::FallThrough
    } else {
        PlanTerminal::Complete
    };
    SlotPlan { ops, terminal }
}

} // verus!
