//! The closed set of failure conditions shared by the three operations.
//!
//! Every failure is a terminal rejection of the whole operation: the caller
//! sees a named code and the ledger is left exactly as it was.

use vstd::prelude::*;

verus! {

/// Validation and authorization failures raised by the escrow logic itself.
#[derive(Clone, Copy, Debug, PartialEq, Eq, Structural)]
pub enum EscrowError {
    /// The supplied seed does not match the expected derivation.
    InvalidSeed,
    /// The session amount must be greater than zero.
    InvalidSessionAmount,
    /// The payer does not hold enough of the asset.
    InsufficientFunds,
    /// The supplied asset does not match the one stored on the record.
    InvalidMint,
    /// The supplied patient does not match the one stored on the record.
    InvalidPatient,
    /// The supplied doctor does not match the expected one.
    InvalidDoctor,
    /// The supplied platform does not match the one stored on the record.
    InvalidPlatformFee,
}

/// Failures surfaced by the ledger and token collaborators that the escrow
/// sits on: account creation, lookup and balance movement.
#[derive(Clone, Copy, Debug, PartialEq, Eq, Structural)]
pub enum LedgerError {
    /// An account already exists at the derived address.
    AlreadyInitialized,
    /// No session record exists for the given (patient, seed) pair.
    RecordNotFound,
    /// A required token account does not exist.
    AccountNotInitialized,
    /// A credit would push a token balance past its capacity.
    BalanceOverflow,
}

/// Everything an operation can fail with: an escrow validation error or a
/// collaborator failure.
#[derive(Clone, Copy, Debug, PartialEq, Eq, Structural)]
pub enum ProgramError {
    Escrow(EscrowError),
    Ledger(LedgerError),
}

} // verus!
