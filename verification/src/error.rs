//! Why a call was rejected.

use vstd::prelude::*;
use vstd::string::StringExecFns;
use crate::text::{decimal, decimal_digits};

verus! {

/// Every way in which the ledger refuses a call. A refused call changes
/// nothing.
#[derive(Clone, Copy, Debug, PartialEq, Eq)]
pub enum ContractError {
    /// The record's identifier is the empty string.
    EmptyGameId,
    /// A record with this identifier is already stored.
    DuplicateGameId,
    /// The record reports no attempt at all.
    ZeroAttempts,
    /// The record reports more attempts than a game can have.
    TooManyAttempts,
    /// The number of listed guesses differs from the number of attempts.
    GuessCountMismatch,
    /// A guess lies outside the range of numbers that can be guessed.
    GuessOutOfRange { guess: u32 },
    /// The target number lies outside that range.
    TargetOutOfRange { target: u32 },
    /// The difficulty is none of the known levels.
    InvalidDifficulty,
    /// A counter of the ledger or of the player would no longer fit its type.
    CounterOverflow,
    /// The storage reading taken after the call is below the one taken before.
    MeterRegressed,
    /// The storage fee does not fit in 128 bits, so no payment can cover it.
    StorageCostOverflow,
    /// The attached payment is below the storage fee.
    InsufficientPayment { required: u128, provided: u128 },
    /// The caller is not the owner.
    NotOwner,
    /// The caller is neither the owner nor on the admin roster.
    NotAdmin,
    /// The account to add is on the admin roster already.
    AlreadyAdmin,
    /// The account to remove is not on the admin roster.
    NotAnAdmin,
    /// A saved state breaks a rule that every ledger keeps.
    CorruptState,
}

impl ContractError {
    /// Whether the error comes from the submitted record itself.
    pub open spec fn is_validation(self) -> bool {
        match self {
            ContractError::EmptyGameId
            | ContractError::DuplicateGameId
            | ContractError::ZeroAttempts
            | ContractError::TooManyAttempts
            | ContractError::GuessCountMismatch
            | ContractError::GuessOutOfRange { .. }
            | ContractError::TargetOutOfRange { .. }
            | ContractError::InvalidDifficulty => true,
            _ => false,
        }
    }

    /// Whether the error comes from who the caller is.
    pub open spec fn is_authorization(self) -> bool {
        self == ContractError::NotOwner || self == ContractError::NotAdmin
    }

    /// Whether the error comes from the payment or the storage readings.
    pub open spec fn is_payment(self) -> bool {
        match self {
            ContractError::MeterRegressed
            | ContractError::StorageCostOverflow
            | ContractError::InsufficientPayment { .. } => true,
            _ => false,
        }
    }

    /// The text that describes the error.
    pub open spec fn message_text(self) -> Seq<char> {
        match self {
            ContractError::EmptyGameId => "Game ID cannot be empty"@,
            ContractError::DuplicateGameId => "Game record already exists"@,
            ContractError::ZeroAttempts => "Attempts must be greater than 0"@,
            ContractError::TooManyAttempts => "Too many attempts"@,
            ContractError::GuessCountMismatch => "Guesses length must match attempts"@,
            ContractError::GuessOutOfRange { guess } => "Invalid guess value: "@ + decimal_digits(
                guess as nat,
            ),
            ContractError::TargetOutOfRange { target } => if target < 1 {
                "Target number must be at least 1"@
            } else {
                "Target number too large"@
            },
            ContractError::InvalidDifficulty => "Invalid difficulty level"@,
            ContractError::CounterOverflow => "Counter overflow"@,
            ContractError::MeterRegressed => "Storage usage decreased during the call"@,
            ContractError::StorageCostOverflow => "Storage cost overflow"@,
            ContractError::InsufficientPayment {
                required,
                provided,
            } => "Insufficient payment for storage. Required: "@ + decimal_digits(required as nat)
                + ", Provided: "@ + decimal_digits(provided as nat),
            ContractError::NotOwner => "Only contract owner can call this method"@,
            ContractError::NotAdmin => "Only contract owner or admin can call this method"@,
            ContractError::AlreadyAdmin => "Account is already an admin"@,
            ContractError::NotAnAdmin => "Account is not an admin"@,
            ContractError::CorruptState => "Saved state is not a valid ledger"@,
        }
    }

    /// The text that describes the error.
    pub fn message(&self) -> (text: String)
        ensures
            text@ == self.message_text(),
    {
        match self {
            ContractError::EmptyGameId => String::from_str("Game ID cannot be empty"),
            ContractError::DuplicateGameId => String::from_str("Game record already exists"),
            ContractError::ZeroAttempts => String::from_str("Attempts must be greater than 0"),
            ContractError::TooManyAttempts => String::from_str("Too many attempts"),
            ContractError::GuessCountMismatch => String::from_str(
                "Guesses length must match attempts",
            ),
            ContractError::GuessOutOfRange { guess } => String::from_str(
                "Invalid guess value: ",
            ).concat(decimal(*guess as u128).as_str()),
            ContractError::TargetOutOfRange { target } => if *target < 1 {
                String::from_str("Target number must be at least 1")
            } else {
                String::from_str("Target number too large")
            },
            ContractError::InvalidDifficulty => String::from_str("Invalid difficulty level"),
            ContractError::CounterOverflow => String::from_str("Counter overflow"),
            ContractError::MeterRegressed => String::from_str(
                "Storage usage decreased during the call",
            ),
            ContractError::StorageCostOverflow => String::from_str("Storage cost overflow"),
            ContractError::InsufficientPayment { required, provided } => String::from_str(
                "Insufficient payment for storage. Required: ",
            ).concat(decimal(*required).as_str()).concat(", Provided: ").concat(
                decimal(*provided).as_str(),
            ),
            ContractError::NotOwner => String::from_str("Only contract owner can call this method"),
            ContractError::NotAdmin => String::from_str(
                "Only contract owner or admin can call this method",
            ),
            ContractError::AlreadyAdmin => String::from_str("Account is already an admin"),
            ContractError::NotAnAdmin => String::from_str("Account is not an admin"),
            ContractError::CorruptState => String::from_str("Saved state is not a valid ledger"),
        }
    }
}

} // verus!
