//! A three-party escrow for paid telehealth sessions.
//!
//! A patient deposits funds for a session into a custodial vault; the funds
//! are later either released (split between a doctor and a platform fee) or
//! refunded (split between the patient and the platform fee). The ledger the
//! escrow sits on is modeled explicitly: accounts live in a [`ledger::Ledger`]
//! value, records are keyed by (patient, seed), and each operation is a
//! verified function that either applies its whole effect or leaves the
//! ledger untouched.
//!
//! The three entry points below carry the operations' full contracts: the
//! exact success condition and error, atomicity on failure, the balances
//! moved on success, and frame clauses for every key they leave alone.

pub mod errors;
pub mod state;
pub mod ledger;
pub mod fees;
pub mod instructions;

use vstd::prelude::*;

use crate::errors::ProgramError;
use crate::fees::{
    doctor_amount_of, platform_fee_of, refund_amount_of, settlement_credit,
};
use crate::instructions::cancel_session::{cancel_accepts, cancel_error, CancelSession};
use crate::instructions::complete_session::{complete_accepts, complete_error, CompleteSession};
use crate::instructions::start_session::{start_accepts, start_error, StartSession};
use crate::ledger::Ledger;
use crate::state::{bump_of, Authority, Escrow, Pubkey};

verus! {

/// Opens a session: files the record at (patient, seed) with exactly the
/// supplied identities, creates the vault owned by the session's derived
/// authority, and moves `session_amount` from the patient's account into
/// the vault — or fails with the operation's error and changes nothing.
pub fn start_session(
    ledger: &mut Ledger,
    accounts: StartSession,
    seed: u64,
    session_amount: u64,
) -> (r: Result<(), ProgramError>)
    requires
        old(ledger).wf(),
    ensures
        final(ledger).wf(),
        r == (if start_accepts(*old(ledger), accounts, seed, session_amount) {
            Result::<(), ProgramError>::Ok(())
        } else {
            Result::<(), ProgramError>::Err(
                start_error(*old(ledger), accounts, seed, session_amount),
            )
        }),
        r is Err ==> *final(ledger) == *old(ledger),
        r is Ok ==> final(ledger).has_record(accounts.patient, seed) && final(ledger).record_of(
            accounts.patient,
            seed,
        ) == (Escrow {
            seed,
            patient: accounts.patient,
            platform: accounts.platform,
            mint: accounts.mint,
            bump: bump_of(accounts.patient, seed),
        }),
        r is Ok ==> final(ledger).balance_of(Authority::Wallet(accounts.patient), accounts.mint)
            == old(ledger).balance_of(Authority::Wallet(accounts.patient), accounts.mint)
            - session_amount && final(ledger).balance_of(
            Authority::Session(accounts.patient, seed),
            accounts.mint,
        ) == session_amount,
        forall|p: Pubkey, s: u64|
            !(p == accounts.patient && s == seed) ==> #[trigger] final(ledger).has_record(p, s)
                == old(ledger).has_record(p, s),
        forall|p: Pubkey, s: u64|
            !(p == accounts.patient && s == seed) && old(ledger).has_record(p, s) ==> #[trigger]
            final(ledger).record_of(p, s) == old(ledger).record_of(p, s),
        forall|o: Authority, m: Pubkey|
            !(o == Authority::Session(accounts.patient, seed) && m == accounts.mint)
                ==> #[trigger] final(ledger).has_account(o, m) == old(ledger).has_account(o, m),
        forall|o: Authority, m: Pubkey|
            !(o == Authority::Wallet(accounts.patient) && m == accounts.mint) && !(o
                == Authority::Session(accounts.patient, seed) && m == accounts.mint)
                ==> #[trigger] final(ledger).balance_of(o, m) == old(ledger).balance_of(o, m),
{
    instructions::start_session::handler(ledger, accounts, seed, session_amount)
}

/// Completes a session: pays the doctor the vault balance less the
/// platform's fee, pays the platform the fee, and destroys the vault and
/// the record — or fails with the operation's error and changes nothing.
pub fn complete_session(ledger: &mut Ledger, accounts: CompleteSession) -> (r: Result<
    (),
    ProgramError,
>)
    requires
        old(ledger).wf(),
    ensures
        final(ledger).wf(),
        r == (if complete_accepts(*old(ledger), accounts) {
            Result::<(), ProgramError>::Ok(())
        } else {
            Result::<(), ProgramError>::Err(complete_error(*old(ledger), accounts))
        }),
        r is Err ==> *final(ledger) == *old(ledger),
        r is Ok ==> ({
            let v = old(ledger).balance_of(
                Authority::Session(accounts.patient, accounts.seed),
                accounts.mint,
            );
            &&& !final(ledger).has_record(accounts.patient, accounts.seed)
            &&& !final(ledger).has_account(
                Authority::Session(accounts.patient, accounts.seed),
                accounts.mint,
            )
            &&& final(ledger).balance_of(Authority::Wallet(accounts.doctor), accounts.mint)
                == old(ledger).balance_of(Authority::Wallet(accounts.doctor), accounts.mint)
                + settlement_credit(
                accounts.doctor,
                accounts.platform,
                accounts.mint,
                doctor_amount_of(v),
                platform_fee_of(v),
                Authority::Wallet(accounts.doctor),
                accounts.mint,
            )
            &&& final(ledger).balance_of(Authority::Wallet(accounts.platform), accounts.mint)
                == old(ledger).balance_of(Authority::Wallet(accounts.platform), accounts.mint)
                + settlement_credit(
                accounts.doctor,
                accounts.platform,
                accounts.mint,
                doctor_amount_of(v),
                platform_fee_of(v),
                Authority::Wallet(accounts.platform),
                accounts.mint,
            )
        }),
        forall|p: Pubkey, s: u64|
            !(p == accounts.patient && s == accounts.seed) ==> #[trigger] final(ledger).has_record(
                p,
                s,
            ) == old(ledger).has_record(p, s),
        forall|p: Pubkey, s: u64|
            !(p == accounts.patient && s == accounts.seed) && old(ledger).has_record(p, s)
                ==> #[trigger] final(ledger).record_of(p, s) == old(ledger).record_of(p, s),
        forall|o: Authority, m: Pubkey|
            !(o == Authority::Session(accounts.patient, accounts.seed) && m == accounts.mint) && !(
            o == Authority::Wallet(accounts.doctor) && m == accounts.mint) ==> #[trigger] final(ledger).has_account(o, m) == old(ledger).has_account(o, m),
        forall|o: Authority, m: Pubkey|
            !(o == Authority::Session(accounts.patient, accounts.seed) && m == accounts.mint)
                ==> #[trigger] final(ledger).balance_of(o, m) as int == old(ledger).balance_of(o, m)
                + (if r is Ok {
                settlement_credit(
                    accounts.doctor,
                    accounts.platform,
                    accounts.mint,
                    doctor_amount_of(
                        old(ledger).balance_of(
                            Authority::Session(accounts.patient, accounts.seed),
                            accounts.mint,
                        ),
                    ),
                    platform_fee_of(
                        old(ledger).balance_of(
                            Authority::Session(accounts.patient, accounts.seed),
                            accounts.mint,
                        ),
                    ),
                    o,
                    m,
                )
            } else {
                0
            }),
{
    instructions::complete_session::handler(ledger, accounts)
}

/// Cancels a session: refunds the patient the vault balance less the
/// platform's fee, pays the platform the fee, and destroys the vault and
/// the record — or fails with the operation's error and changes nothing.
pub fn cancel_session(ledger: &mut Ledger, accounts: CancelSession) -> (r: Result<
    (),
    ProgramError,
>)
    requires
        old(ledger).wf(),
    ensures
        final(ledger).wf(),
        r == (if cancel_accepts(*old(ledger), accounts) {
            Result::<(), ProgramError>::Ok(())
        } else {
            Result::<(), ProgramError>::Err(cancel_error(*old(ledger), accounts))
        }),
        r is Err ==> *final(ledger) == *old(ledger),
        r is Ok ==> ({
            let v = old(ledger).balance_of(
                Authority::Session(accounts.patient, accounts.seed),
                accounts.mint,
            );
            &&& !final(ledger).has_record(accounts.patient, accounts.seed)
            &&& !final(ledger).has_account(
                Authority::Session(accounts.patient, accounts.seed),
                accounts.mint,
            )
            &&& final(ledger).balance_of(Authority::Wallet(accounts.patient), accounts.mint)
                == old(ledger).balance_of(Authority::Wallet(accounts.patient), accounts.mint)
                + settlement_credit(
                accounts.patient,
                accounts.platform,
                accounts.mint,
                refund_amount_of(v),
                platform_fee_of(v),
                Authority::Wallet(accounts.patient),
                accounts.mint,
            )
            &&& final(ledger).balance_of(Authority::Wallet(accounts.platform), accounts.mint)
                == old(ledger).balance_of(Authority::Wallet(accounts.platform), accounts.mint)
                + settlement_credit(
                accounts.patient,
                accounts.platform,
                accounts.mint,
                refund_amount_of(v),
                platform_fee_of(v),
                Authority::Wallet(accounts.platform),
                accounts.mint,
            )
        }),
        forall|p: Pubkey, s: u64|
            !(p == accounts.patient && s == accounts.seed) ==> #[trigger] final(ledger).has_record(
                p,
                s,
            ) == old(ledger).has_record(p, s),
        forall|p: Pubkey, s: u64|
            !(p == accounts.patient && s == accounts.seed) && old(ledger).has_record(p, s)
                ==> #[trigger] final(ledger).record_of(p, s) == old(ledger).record_of(p, s),
        forall|o: Authority, m: Pubkey|
            !(o == Authority::Session(accounts.patient, accounts.seed) && m == accounts.mint) && !(
            o == Authority::Wallet(accounts.patient) && m == accounts.mint) ==> #[trigger] final(ledger).has_account(o, m) == old(ledger).has_account(o, m),
        forall|o: Authority, m: Pubkey|
            !(o == Authority::Session(accounts.patient, accounts.seed) && m == accounts.mint)
                ==> #[trigger] final(ledger).balance_of(o, m) as int == old(ledger).balance_of(o, m)
                + (if r is Ok {
                settlement_credit(
                    accounts.patient,
                    accounts.platform,
                    accounts.mint,
                    refund_amount_of(
                        old(ledger).balance_of(
                            Authority::Session(accounts.patient, accounts.seed),
                            accounts.mint,
                        ),
                    ),
                    platform_fee_of(
                        old(ledger).balance_of(
                            Authority::Session(accounts.patient, accounts.seed),
                            accounts.mint,
                        ),
                    ),
                    o,
                    m,
                )
            } else {
                0
            }),
{
    instructions::cancel_session::handler(ledger, accounts)
}

} // verus!
