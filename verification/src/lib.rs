//! Location-gated, one-time reward drops.
//!
//! A creator ties a reward to a geographic point; a claimer who reports
//! coordinates inside the geofence around that point receives the reward,
//! exactly once.

use crate::account::{Account, AccountView};
use crate::error::DropError;
use crate::instructions::{claim_drop, create_drop, spec_applied, spec_claim_drop, spec_create_drop};
use pinocchio::pubkey::Pubkey;
use vstd::prelude::*;
use vstd::slice::slice_subrange;

pub mod account;
pub mod bytes;
pub mod error;
pub mod geofence;
pub mod instructions;
pub mod state;

verus! {

/// Opcode of the creation of a drop.
pub const OP_CREATE_DROP: u8 = 0;

/// Opcode of the claim of a drop.
pub const OP_CLAIM_DROP: u8 = 1;

/// What an instruction does: the accounts afterwards, or why it is refused.
///
/// The first byte selects the operation; the rest is its payload.
pub open spec fn spec_process_instruction(
    accounts: Seq<AccountView>,
    instruction_data: Seq<u8>,
) -> Result<Seq<AccountView>, DropError> {
    if instruction_data.len() == 0 {
        Err(DropError::MalformedInstruction)
    } else if instruction_data[0] == OP_CREATE_DROP {
        spec_create_drop(accounts, instruction_data.skip(1))
    } else if instruction_data[0] == OP_CLAIM_DROP {
        spec_claim_drop(accounts, instruction_data.skip(1))
    } else {
        Err(DropError::MalformedInstruction)
    }
}

/// Runs one instruction on the given accounts.
///
/// An empty instruction and an unknown opcode are refused as malformed, and
/// so is anything the selected operation refuses; a refused instruction
/// leaves the accounts as they were. The program's own identity plays no
/// part.
pub fn process_instruction(
    _program_id: &Pubkey,
    accounts: &mut [Account],
    instruction_data: &[u8],
) -> (r: Result<(), DropError>)
    ensures
        spec_applied(
            spec_process_instruction(old(accounts).deep_view(), instruction_data@),
            old(accounts).deep_view(),
            final(accounts).deep_view(),
            r,
        ),
        final(accounts)@.len() == old(accounts)@.len(),
{
    if instruction_data.len() == 0 {
        return Err(DropError::MalformedInstruction);
    }
    let opcode: u8 = instruction_data[0];
    let data = slice_subrange(instruction_data, 1, instruction_data.len());
    if opcode == OP_CREATE_DROP {
        create_drop(accounts, data)
    } else if opcode == OP_CLAIM_DROP {
        claim_drop(accounts, data)
    } else {
        Err(DropError::MalformedInstruction)
    }
}

} // verus!
