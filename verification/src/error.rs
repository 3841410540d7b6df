//! Why an operation on a drop was refused.

use pinocchio::program_error::ProgramError;
use vstd::prelude::*;

verus! {

/// `pinocchio::program_error::ProgramError`, the error type of the host.
///
/// It is declared with its variants, which Verus reads from the crate
/// itself, so that verified code can build its values and contracts can name
/// them. Nothing is assumed of it.
#[verifier::external_type_specification]
pub struct ExProgramError(ProgramError);

/// Code by which the host tells a claim from too far away apart from every
/// other refusal.
pub const ERR_TOO_FAR: u32 = 0x10;

/// Why an operation was refused. A refused operation changes nothing.
#[derive(Clone, Copy, Debug, PartialEq, Eq, Structural)]
pub enum DropError {
    /// Fewer account handles were passed than the operation takes.
    AccountCount,
    /// The account that must authorize the operation has not signed.
    Signature,
    /// Unknown opcode, no opcode, or a payload shorter than the operation's
    /// layout.
    MalformedInstruction,
    /// The record slot is too short to hold a record: none can be decoded
    /// from it and none encoded into it.
    SlotTooSmall,
    /// The drop has been claimed before.
    DoubleClaim,
    /// The claimer's coordinates lie outside the geofence; `dlat` and `dlng`
    /// are the distances to the drop on either axis.
    Proximity { dlat: u64, dlng: u64 },
    /// The vault holds less than the reward.
    InsufficientFunds { available: u64, needed: u64 },
    /// The claimer's balance cannot take the reward without overflowing.
    BalanceOverflow,
}

impl DropError {
    /// The host's error value for this refusal.
    pub open spec fn spec_program_error(self) -> ProgramError {
        match self {
            DropError::AccountCount => ProgramError::NotEnoughAccountKeys,
            DropError::Signature => ProgramError::MissingRequiredSignature,
            DropError::MalformedInstruction => ProgramError::InvalidInstructionData,
            DropError::SlotTooSmall => ProgramError::AccountDataTooSmall,
            DropError::DoubleClaim => ProgramError::AccountAlreadyInitialized,
            DropError::Proximity { .. } => ProgramError::Custom(ERR_TOO_FAR),
            DropError::InsufficientFunds { .. } => ProgramError::InsufficientFunds,
            DropError::BalanceOverflow => ProgramError::ArithmeticOverflow,
        }
    }

    /// The host's error value for this refusal: a code of its own for a
    /// claim from too far away, one of the host's structural errors for
    /// everything else.
    pub fn program_error(self) -> (e: ProgramError)
        ensures
            e == self.spec_program_error(),
            e is Custom <==> self is Proximity,
    {
        match self {
            DropError::AccountCount => ProgramError::NotEnoughAccountKeys,
            DropError::Signature => ProgramError::MissingRequiredSignature,
            DropError::MalformedInstruction => ProgramError::InvalidInstructionData,
            DropError::SlotTooSmall => ProgramError::AccountDataTooSmall,
            DropError::DoubleClaim => ProgramError::AccountAlreadyInitialized,
            DropError::Proximity { .. } => ProgramError::Custom(ERR_TOO_FAR),
            DropError::InsufficientFunds { .. } => ProgramError::InsufficientFunds,
            DropError::BalanceOverflow => ProgramError::ArithmeticOverflow,
        }
    }
}

} // verus!
