//! Open-Session: validates the deposit, files the session record, creates
//! its vault and escrows the session amount.

use vstd::prelude::*;

use crate::errors::{EscrowError, LedgerError, ProgramError};
use crate::ledger::Ledger;
use crate::state::{bump_of, derive_bump, Authority, Escrow, Pubkey};

verus! {

/// The accounts an Open-Session call supplies: the signing patient (who is
/// also the source of the deposit), the platform to record as fee recipient,
/// and the asset the session is denominated in.
pub struct StartSession {
    pub patient: Pubkey,
    pub platform: Pubkey,
    pub mint: Pubkey,
}

/// When Open-Session succeeds: a positive amount, a patient balance that
/// covers it, and no record yet at (patient, seed).
pub open spec fn start_accepts(
    l: Ledger,
    a: StartSession,
    seed: u64,
    session_amount: u64,
) -> bool {
    &&& session_amount > 0
    &&& l.balance_of(Authority::Wallet(a.patient), a.mint) >= session_amount
    &&& !l.has_record(a.patient, seed)
}

/// The error Open-Session reports, determined by its checks in order: the
/// amount, then the patient's funds, then the derived address being free.
pub open spec fn start_error(
    l: Ledger,
    a: StartSession,
    seed: u64,
    session_amount: u64,
) -> ProgramError {
    if session_amount == 0 {
        ProgramError::Escrow(EscrowError::InvalidSessionAmount)
    } else if l.balance_of(Authority::Wallet(a.patient), a.mint) < session_amount {
        ProgramError::Escrow(EscrowError::InsufficientFunds)
    } else {
        ProgramError::Ledger(LedgerError::AlreadyInitialized)
    }
}

/// Opens a session: files the record at (patient, seed), creates the vault
/// owned by the session's derived authority, and moves the session amount
/// from the patient's account into the vault — or fails with the operation's
/// error and changes nothing at all.
pub fn handler(
    ledger: &mut Ledger,
    accounts: StartSession,
    seed: u64,
    session_amount: u64,
) -> (r: Result<(), ProgramError>)
    requires
        old(ledger).wf(),
    ensures
        final(ledger).wf(),
        r == (if start_accepts(*old(ledger), accounts, seed, session_amount) {
            Result::<(), ProgramError>::Ok(())
        } else {
            Result::<(), ProgramError>::Err(
                start_error(*old(ledger), accounts, seed, session_amount),
            )
        }),
        r is Err ==> *final(ledger) == *old(ledger),
        r is Ok ==> final(ledger).has_record(accounts.patient, seed) && final(ledger).record_of(
            accounts.patient,
            seed,
        ) == (Escrow {
            seed,
            patient: accounts.patient,
            platform: accounts.platform,
            mint: accounts.mint,
            bump: bump_of(accounts.patient, seed),
        }),
        r is Ok ==> final(ledger).balance_of(Authority::Wallet(accounts.patient), accounts.mint)
            == old(ledger).balance_of(Authority::Wallet(accounts.patient), accounts.mint)
            - session_amount && final(ledger).balance_of(
            Authority::Session(accounts.patient, seed),
            accounts.mint,
        ) == session_amount,
        forall|p: Pubkey, s: u64|
            !(p == accounts.patient && s == seed) ==> #[trigger] final(ledger).has_record(p, s)
                == old(ledger).has_record(p, s),
        forall|p: Pubkey, s: u64|
            !(p == accounts.patient && s == seed) && old(ledger).has_record(p, s) ==> #[trigger]
            final(ledger).record_of(p, s) == old(ledger).record_of(p, s),
        forall|o: Authority, m: Pubkey|
            !(o == Authority::Session(accounts.patient, seed) && m == accounts.mint)
                ==> #[trigger] final(ledger).has_account(o, m) == old(ledger).has_account(o, m),
        forall|o: Authority, m: Pubkey|
            !(o == Authority::Wallet(accounts.patient) && m == accounts.mint) && !(o
                == Authority::Session(accounts.patient, seed) && m == accounts.mint)
                ==> #[trigger] final(ledger).balance_of(o, m) == old(ledger).balance_of(o, m),
{
    if session_amount == 0 {
        return Err(ProgramError::Escrow(EscrowError::InvalidSessionAmount));
    }
    let patient_key = Authority::Wallet(accounts.patient);
    let bal = ledger.balance(patient_key, accounts.mint);
    if bal < session_amount {
        return Err(ProgramError::Escrow(EscrowError::InsufficientFunds));
    }
    if ledger.record_exists(accounts.patient, seed) {
        return Err(ProgramError::Ledger(LedgerError::AlreadyInitialized));
    }
    let bump = derive_bump(accounts.patient, seed);
    let escrow = Escrow {
        seed,
        patient: accounts.patient,
        platform: accounts.platform,
        mint: accounts.mint,
        bump,
    };
    // A positive balance means the patient's account exists.
    assert(old(ledger).has_account(patient_key, accounts.mint));
    ledger.install_session(escrow);
    let ghost l1 = *ledger;
    ledger.transfer(
        accounts.mint,
        patient_key,
        Authority::Session(accounts.patient, seed),
        session_amount,
    );
    proof {
        // The transfer leaves the record store untouched, so record lookups
        // still answer as they did right after the session was installed.
        assert forall|p: Pubkey, s: u64| !(p == accounts.patient && s == seed) implies #[trigger]
        ledger.has_record(p, s) == old(ledger).has_record(p, s) by {
            assert(ledger.records@ == l1.records@);
            assert(ledger.has_record(p, s) == l1.has_record(p, s));
            assert(l1.has_record(p, s) == old(ledger).has_record(p, s));
        }
        assert forall|p: Pubkey, s: u64|
            !(p == accounts.patient && s == seed) && old(ledger).has_record(p, s) implies #[trigger]
        ledger.record_of(p, s) == old(ledger).record_of(p, s) by {
            assert(ledger.records@ == l1.records@);
            assert(ledger.record_of(p, s) == l1.record_of(p, s));
            assert(l1.record_of(p, s) == old(ledger).record_of(p, s));
        }
    }
    Ok(())
}

} // verus!
