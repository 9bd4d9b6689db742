//! Identities, signing authorities and the persisted session record.

use vstd::prelude::*;

verus! {

/// A 32-byte ledger identity, written as two 128-bit halves.
#[derive(Clone, Copy, Debug, PartialEq, Eq, Structural)]
pub struct Pubkey {
    pub hi: u128,
    pub lo: u128,
}

/// The owner of a token account.
///
/// A `Wallet` is a human-held identity. A `Session` is the derived authority
/// of one escrow: it is computable only from the (patient, seed) pair that
/// names the session, and only this module's own code ever acts for it, so
/// the vault's funds can move solely through the escrow's settlement paths.
#[derive(Clone, Copy, Debug, PartialEq, Eq, Structural)]
pub enum Authority {
    Wallet(Pubkey),
    Session(Pubkey, u64),
}

/// The persisted state of one escrow: the caller-chosen seed, the three
/// stored identities, and the derivation salt that proves the record's
/// address was correctly derived from (patient, seed).
#[derive(Clone, Copy, Debug, PartialEq, Eq, Structural)]
pub struct Escrow {
    pub seed: u64,
    pub patient: Pubkey,
    pub platform: Pubkey,
    pub mint: Pubkey,
    pub bump: u8,
}

/// The derivation salt for the record at (patient, seed): the same inputs
/// always yield the same salt.
pub open spec fn bump_of(patient: Pubkey, seed: u64) -> u8 {
    ((patient.hi % 256 + patient.lo % 256 + (seed as u128) % 256) % 256) as u8
}

/// Computes the derivation salt stored on a record.
pub fn derive_bump(patient: Pubkey, seed: u64) -> (b: u8)
    ensures
        b == bump_of(patient, seed),
{
    (((patient.hi % 256) + (patient.lo % 256) + ((seed as u128) % 256)) % 256) as u8
}

} // verus!
