//! Build-time algorithms for a branch-minimal account-decode entrypoint:
//! a dispatch-tree compiler that routes a bounded runtime integer to a
//! literal-specialized handler, a decode-plan generator that lays out the
//! per-slot operations for a literal record count, and a batched strategy
//! that composes the two to bound generated code size.

use vstd::prelude::*;

pub mod batch;
pub mod decode;
pub mod dispatch;
pub mod plan;

verus! {

/// Base address of the descriptor table in the target address space.
pub const ACCOUNTS_PTR: u64 = 0x300000000;

/// Start of the heap region, placed directly after the descriptor table,
/// which holds one 8-byte pointer per account slot.
pub fn heap_start(num_accounts: u64) -> (r: u64)
    requires
        ACCOUNTS_PTR + num_accounts * 8 <= u64::MAX,
    ensures
        r == ACCOUNTS_PTR + num_accounts * 8,
{
    ACCOUNTS_PTR + num_accounts * 8
}

/// Declares pinocchio's `AccountInfo` so that it can stand in signatures.
/// The library never reads inside a value of it.
#[verifier::external_type_specification]
#[verifier::external_body]
pub struct ExAccountInfo(pinocchio::account_info::AccountInfo);

/// The downstream business logic that consumes the decoded descriptor
/// table: an external collaborator, held here at its interface boundary.
#[allow(unused_variables)]
pub fn process(
    program_id: &pinocchio::pubkey::Pubkey,
    accounts: &[pinocchio::account_info::AccountInfo],
    data: &[u8],
) -> (r: u32)
    ensures
        r == 0,
{
    0
}

} // verus!
