//! Cancel-Session: the patient walks away, reclaiming the vault balance
//! less the platform's fee, and the session is extinguished.
//!
//! Cancelling validates only the stored asset: any time after opening, the
//! patient's signature alone suffices, regardless of session progress, and
//! the fee goes to whatever platform account the caller supplies.

use vstd::prelude::*;

use crate::errors::{EscrowError, LedgerError, ProgramError};
use crate::fees::{platform_fee_of, refund_amount_of, settlement_credit};
use crate::instructions::settle::distribute_and_close;
use crate::ledger::Ledger;
use crate::state::{Authority, Pubkey};

verus! {

/// The accounts a Cancel-Session call supplies: the signing patient (who
/// receives the refund), the platform to pay the fee to, and the asset and
/// seed that name and validate the session being settled.
pub struct CancelSession {
    pub patient: Pubkey,
    pub platform: Pubkey,
    pub mint: Pubkey,
    pub seed: u64,
}

/// When Cancel-Session succeeds: the record exists, its stored asset
/// matches the supplied one, the platform's fee account exists, and
/// neither credited balance can overflow.
pub open spec fn cancel_accepts(l: Ledger, a: CancelSession) -> bool {
    let rec = l.record_of(a.patient, a.seed);
    let v = l.balance_of(Authority::Session(a.patient, a.seed), a.mint);
    &&& l.has_record(a.patient, a.seed)
    &&& rec.mint == a.mint
    &&& l.has_account(Authority::Wallet(a.platform), a.mint)
    &&& l.balance_of(Authority::Wallet(a.patient), a.mint) + settlement_credit(
        a.patient,
        a.platform,
        a.mint,
        refund_amount_of(v),
        platform_fee_of(v),
        Authority::Wallet(a.patient),
        a.mint,
    ) <= u64::MAX
    &&& l.balance_of(Authority::Wallet(a.platform), a.mint) + settlement_credit(
        a.patient,
        a.platform,
        a.mint,
        refund_amount_of(v),
        platform_fee_of(v),
        Authority::Wallet(a.platform),
        a.mint,
    ) <= u64::MAX
}

/// The error Cancel-Session reports, determined by its guards in order:
/// the record's existence, the stored asset, the platform's fee account,
/// and finally the credited balances' capacity.
pub open spec fn cancel_error(l: Ledger, a: CancelSession) -> ProgramError {
    let rec = l.record_of(a.patient, a.seed);
    if !l.has_record(a.patient, a.seed) {
        ProgramError::Ledger(LedgerError::RecordNotFound)
    } else if rec.mint != a.mint {
        ProgramError::Escrow(EscrowError::InvalidMint)
    } else if !l.has_account(Authority::Wallet(a.platform), a.mint) {
        ProgramError::Ledger(LedgerError::AccountNotInitialized)
    } else {
        ProgramError::Ledger(LedgerError::BalanceOverflow)
    }
}

/// Cancels a session: validates the supplied asset against the stored
/// record, refunds the patient the vault balance less the platform's fee,
/// pays the platform the fee, and destroys the vault and the record — or
/// fails with the operation's error and changes nothing at all.
pub fn handler(ledger: &mut Ledger, accounts: CancelSession) -> (r: Result<(), ProgramError>)
    requires
        old(ledger).wf(),
    ensures
        final(ledger).wf(),
        r == (if cancel_accepts(*old(ledger), accounts) {
            Result::<(), ProgramError>::Ok(())
        } else {
            Result::<(), ProgramError>::Err(cancel_error(*old(ledger), accounts))
        }),
        r is Err ==> *final(ledger) == *old(ledger),
        r is Ok ==> ({
            let v = old(ledger).balance_of(
                Authority::Session(accounts.patient, accounts.seed),
                accounts.mint,
            );
            &&& !final(ledger).has_record(accounts.patient, accounts.seed)
            &&& !final(ledger).has_account(
                Authority::Session(accounts.patient, accounts.seed),
                accounts.mint,
            )
            &&& final(ledger).balance_of(Authority::Wallet(accounts.patient), accounts.mint)
                == old(ledger).balance_of(Authority::Wallet(accounts.patient), accounts.mint)
                + settlement_credit(
                accounts.patient,
                accounts.platform,
                accounts.mint,
                refund_amount_of(v),
                platform_fee_of(v),
                Authority::Wallet(accounts.patient),
                accounts.mint,
            )
            &&& final(ledger).balance_of(Authority::Wallet(accounts.platform), accounts.mint)
                == old(ledger).balance_of(Authority::Wallet(accounts.platform), accounts.mint)
                + settlement_credit(
                accounts.patient,
                accounts.platform,
                accounts.mint,
                refund_amount_of(v),
                platform_fee_of(v),
                Authority::Wallet(accounts.platform),
                accounts.mint,
            )
        }),
        forall|p: Pubkey, s: u64|
            !(p == accounts.patient && s == accounts.seed) ==> #[trigger] final(ledger).has_record(
                p,
                s,
            ) == old(ledger).has_record(p, s),
        forall|p: Pubkey, s: u64|
            !(p == accounts.patient && s == accounts.seed) && old(ledger).has_record(p, s)
                ==> #[trigger] final(ledger).record_of(p, s) == old(ledger).record_of(p, s),
        forall|o: Authority, m: Pubkey|
            !(o == Authority::Session(accounts.patient, accounts.seed) && m == accounts.mint) && !(
            o == Authority::Wallet(accounts.patient) && m == accounts.mint) ==> #[trigger] final(ledger).has_account(o, m) == old(ledger).has_account(o, m),
        forall|o: Authority, m: Pubkey|
            !(o == Authority::Session(accounts.patient, accounts.seed) && m == accounts.mint)
                ==> #[trigger] final(ledger).balance_of(o, m) as int == old(ledger).balance_of(o, m)
                + (if r is Ok {
                settlement_credit(
                    accounts.patient,
                    accounts.platform,
                    accounts.mint,
                    refund_amount_of(
                        old(ledger).balance_of(
                            Authority::Session(accounts.patient, accounts.seed),
                            accounts.mint,
                        ),
                    ),
                    platform_fee_of(
                        old(ledger).balance_of(
                            Authority::Session(accounts.patient, accounts.seed),
                            accounts.mint,
                        ),
                    ),
                    o,
                    m,
                )
            } else {
                0
            }),
{
    let record = match ledger.find_record(accounts.patient, accounts.seed) {
        None => {
            return Err(ProgramError::Ledger(LedgerError::RecordNotFound));
        },
        Some(i) => {
            proof {
                crate::ledger::lemma_record_at(ledger.records@, i as int);
            }
            ledger.records[i]
        },
    };
    // The lookup key is the patient: the stored patient necessarily matches
    // the supplied one, so the design's patient guard can never fire here.
    assert(record.patient == accounts.patient);
    if record.mint != accounts.mint {
        return Err(ProgramError::Escrow(EscrowError::InvalidMint));
    }
    let platform_key = Authority::Wallet(accounts.platform);
    if !ledger.account_exists(platform_key, accounts.mint) {
        return Err(ProgramError::Ledger(LedgerError::AccountNotInitialized));
    }
    let vault_key = Authority::Session(accounts.patient, accounts.seed);
    let patient_key = Authority::Wallet(accounts.patient);
    let v = ledger.balance(vault_key, accounts.mint);
    let fee = crate::fees::platform_fee(v);
    proof {
        crate::fees::lemma_split_exact(v);
        crate::fees::lemma_cancel_split_matches_complete(v);
    }
    let share = v - fee;
    let refund_bal = ledger.balance(patient_key, accounts.mint);
    let p_bal = ledger.balance(platform_key, accounts.mint);
    if accounts.patient == accounts.platform {
        if (p_bal as u128) + (v as u128) > (u64::MAX as u128) {
            return Err(ProgramError::Ledger(LedgerError::BalanceOverflow));
        }
    } else {
        if (refund_bal as u128) + (share as u128) > (u64::MAX as u128) {
            return Err(ProgramError::Ledger(LedgerError::BalanceOverflow));
        }
        if (p_bal as u128) + (fee as u128) > (u64::MAX as u128) {
            return Err(ProgramError::Ledger(LedgerError::BalanceOverflow));
        }
    }
    let _ = distribute_and_close(
        ledger,
        accounts.patient,
        accounts.seed,
        accounts.patient,
        accounts.platform,
        accounts.mint,
    );
    Ok(())
}

/// A settled session cannot be cancelled again: once the record at
/// (patient, seed) is gone — as it is after either terminal operation
/// succeeds — every further Cancel-Session attempt is refused with the
/// missing-record failure, before anything can move.
pub proof fn lemma_no_record_refuses_cancel(l: Ledger, a: CancelSession)
    requires
        !l.has_record(a.patient, a.seed),
    ensures
        !cancel_accepts(l, a),
        cancel_error(l, a) == ProgramError::Ledger(LedgerError::RecordNotFound),
{
}

} // verus!
