//! Complete-Session: the doctor settles the session, taking the vault
//! balance less the platform's fee, and the session is extinguished.

use vstd::prelude::*;

use crate::errors::{EscrowError, LedgerError, ProgramError};
use crate::fees::{doctor_amount_of, platform_fee_of, settlement_credit};
use crate::instructions::settle::distribute_and_close;
use crate::ledger::Ledger;
use crate::state::{Authority, Pubkey};

verus! {

/// The accounts a Complete-Session call supplies: the signing doctor (who
/// receives the payout), and the patient, platform, asset and seed that
/// name and validate the session being settled.
pub struct CompleteSession {
    pub doctor: Pubkey,
    pub patient: Pubkey,
    pub platform: Pubkey,
    pub mint: Pubkey,
    pub seed: u64,
}

/// When Complete-Session succeeds: the record exists, its stored platform
/// and asset match the supplied accounts, the platform's fee account
/// exists, and neither credited balance can overflow.
pub open spec fn complete_accepts(l: Ledger, a: CompleteSession) -> bool {
    let rec = l.record_of(a.patient, a.seed);
    let v = l.balance_of(Authority::Session(a.patient, a.seed), a.mint);
    &&& l.has_record(a.patient, a.seed)
    &&& rec.platform == a.platform
    &&& rec.mint == a.mint
    &&& l.has_account(Authority::Wallet(a.platform), a.mint)
    &&& l.balance_of(Authority::Wallet(a.doctor), a.mint) + settlement_credit(
        a.doctor,
        a.platform,
        a.mint,
        doctor_amount_of(v),
        platform_fee_of(v),
        Authority::Wallet(a.doctor),
        a.mint,
    ) <= u64::MAX
    &&& l.balance_of(Authority::Wallet(a.platform), a.mint) + settlement_credit(
        a.doctor,
        a.platform,
        a.mint,
        doctor_amount_of(v),
        platform_fee_of(v),
        Authority::Wallet(a.platform),
        a.mint,
    ) <= u64::MAX
}

/// The error Complete-Session reports, determined by its guards in order:
/// the record's existence, the stored platform, the stored asset, the
/// platform's fee account, and finally the credited balances' capacity.
pub open spec fn complete_error(l: Ledger, a: CompleteSession) -> ProgramError {
    let rec = l.record_of(a.patient, a.seed);
    if !l.has_record(a.patient, a.seed) {
        ProgramError::Ledger(LedgerError::RecordNotFound)
    } else if rec.platform != a.platform {
        ProgramError::Escrow(EscrowError::InvalidPlatformFee)
    } else if rec.mint != a.mint {
        ProgramError::Escrow(EscrowError::InvalidMint)
    } else if !l.has_account(Authority::Wallet(a.platform), a.mint) {
        ProgramError::Ledger(LedgerError::AccountNotInitialized)
    } else {
        ProgramError::Ledger(LedgerError::BalanceOverflow)
    }
}

/// Completes a session: validates the supplied accounts against the stored
/// record, pays the doctor the vault balance less the platform's fee, pays
/// the platform the fee, and destroys the vault and the record — or fails
/// with the operation's error and changes nothing at all.
pub fn handler(ledger: &mut Ledger, accounts: CompleteSession) -> (r: Result<(), ProgramError>)
    requires
        old(ledger).wf(),
    ensures
        final(ledger).wf(),
        r == (if complete_accepts(*old(ledger), accounts) {
            Result::<(), ProgramError>::Ok(())
        } else {
            Result::<(), ProgramError>::Err(complete_error(*old(ledger), accounts))
        }),
        r is Err ==> *final(ledger) == *old(ledger),
        r is Ok ==> ({
            let v = old(ledger).balance_of(
                Authority::Session(accounts.patient, accounts.seed),
                accounts.mint,
            );
            &&& !final(ledger).has_record(accounts.patient, accounts.seed)
            &&& !final(ledger).has_account(
                Authority::Session(accounts.patient, accounts.seed),
                accounts.mint,
            )
            &&& final(ledger).balance_of(Authority::Wallet(accounts.doctor), accounts.mint)
                == old(ledger).balance_of(Authority::Wallet(accounts.doctor), accounts.mint)
                + settlement_credit(
                accounts.doctor,
                accounts.platform,
                accounts.mint,
                doctor_amount_of(v),
                platform_fee_of(v),
                Authority::Wallet(accounts.doctor),
                accounts.mint,
            )
            &&& final(ledger).balance_of(Authority::Wallet(accounts.platform), accounts.mint)
                == old(ledger).balance_of(Authority::Wallet(accounts.platform), accounts.mint)
                + settlement_credit(
                accounts.doctor,
                accounts.platform,
                accounts.mint,
                doctor_amount_of(v),
                platform_fee_of(v),
                Authority::Wallet(accounts.platform),
                accounts.mint,
            )
        }),
        forall|p: Pubkey, s: u64|
            !(p == accounts.patient && s == accounts.seed) ==> #[trigger] final(ledger).has_record(
                p,
                s,
            ) == old(ledger).has_record(p, s),
        forall|p: Pubkey, s: u64|
            !(p == accounts.patient && s == accounts.seed) && old(ledger).has_record(p, s)
                ==> #[trigger] final(ledger).record_of(p, s) == old(ledger).record_of(p, s),
        forall|o: Authority, m: Pubkey|
            !(o == Authority::Session(accounts.patient, accounts.seed) && m == accounts.mint) && !(
            o == Authority::Wallet(accounts.doctor) && m == accounts.mint) ==> #[trigger] final(ledger).has_account(o, m) == old(ledger).has_account(o, m),
        forall|o: Authority, m: Pubkey|
            !(o == Authority::Session(accounts.patient, accounts.seed) && m == accounts.mint)
                ==> #[trigger] final(ledger).balance_of(o, m) as int == old(ledger).balance_of(o, m)
                + (if r is Ok {
                settlement_credit(
                    accounts.doctor,
                    accounts.platform,
                    accounts.mint,
                    doctor_amount_of(
                        old(ledger).balance_of(
                            Authority::Session(accounts.patient, accounts.seed),
                            accounts.mint,
                        ),
                    ),
                    platform_fee_of(
                        old(ledger).balance_of(
                            Authority::Session(accounts.patient, accounts.seed),
                            accounts.mint,
                        ),
                    ),
                    o,
                    m,
                )
            } else {
                0
            }),
{
    let record = match ledger.find_record(accounts.patient, accounts.seed) {
        None => {
            return Err(ProgramError::Ledger(LedgerError::RecordNotFound));
        },
        Some(i) => {
            proof {
                crate::ledger::lemma_record_at(ledger.records@, i as int);
            }
            ledger.records[i]
        },
    };
    // The lookup key is the patient: the stored patient necessarily matches
    // the supplied one, so the design's patient guard can never fire here.
    assert(record.patient == accounts.patient);
    if record.platform != accounts.platform {
        return Err(ProgramError::Escrow(EscrowError::InvalidPlatformFee));
    }
    if record.mint != accounts.mint {
        return Err(ProgramError::Escrow(EscrowError::InvalidMint));
    }
    let platform_key = Authority::Wallet(accounts.platform);
    if !ledger.account_exists(platform_key, accounts.mint) {
        return Err(ProgramError::Ledger(LedgerError::AccountNotInitialized));
    }
    let vault_key = Authority::Session(accounts.patient, accounts.seed);
    let doctor_key = Authority::Wallet(accounts.doctor);
    let v = ledger.balance(vault_key, accounts.mint);
    let fee = crate::fees::platform_fee(v);
    proof {
        crate::fees::lemma_split_exact(v);
    }
    let share = v - fee;
    let d_bal = ledger.balance(doctor_key, accounts.mint);
    let p_bal = ledger.balance(platform_key, accounts.mint);
    if accounts.doctor == accounts.platform {
        if (p_bal as u128) + (v as u128) > (u64::MAX as u128) {
            return Err(ProgramError::Ledger(LedgerError::BalanceOverflow));
        }
    } else {
        if (d_bal as u128) + (share as u128) > (u64::MAX as u128) {
            return Err(ProgramError::Ledger(LedgerError::BalanceOverflow));
        }
        if (p_bal as u128) + (fee as u128) > (u64::MAX as u128) {
            return Err(ProgramError::Ledger(LedgerError::BalanceOverflow));
        }
    }
    let _ = distribute_and_close(
        ledger,
        accounts.patient,
        accounts.seed,
        accounts.doctor,
        accounts.platform,
        accounts.mint,
    );
    Ok(())
}

/// A settled session cannot be completed again: once the record at
/// (patient, seed) is gone — as it is after either terminal operation
/// succeeds — every further Complete-Session attempt is refused with the
/// missing-record failure, before anything can move. Together with the
/// handler's contract this makes two rival completions mutually exclusive:
/// whichever lands first removes the record the other one needs.
pub proof fn lemma_no_record_refuses_complete(l: Ledger, a: CompleteSession)
    requires
        !l.has_record(a.patient, a.seed),
    ensures
        !complete_accepts(l, a),
        complete_error(l, a) == ProgramError::Ledger(LedgerError::RecordNotFound),
{
}

} // verus!
