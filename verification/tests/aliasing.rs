//! Settlements where one party plays two roles: both transfers still land,
//! on the single shared account.

use telehealthsol_escrow::instructions::cancel_session::CancelSession;
use telehealthsol_escrow::instructions::complete_session::CompleteSession;
use telehealthsol_escrow::instructions::start_session::StartSession;
use telehealthsol_escrow::ledger::Ledger;
use telehealthsol_escrow::state::{Authority, Pubkey};
use telehealthsol_escrow::{cancel_session, complete_session, start_session};

fn pk(n: u128) -> Pubkey {
    Pubkey { hi: n, lo: n + 100 }
}

#[test]
fn doctor_who_is_the_platform_collects_both_shares() {
    let mut ledger = Ledger::new();
    let (patient, platform, mint) = (pk(1), pk(3), pk(4));
    ledger.create_wallet_account(patient, mint, 1_000).unwrap();
    ledger.create_wallet_account(platform, mint, 0).unwrap();
    start_session(&mut ledger, StartSession { patient, platform, mint }, 7, 1_000).unwrap();
    // The platform itself acts as the doctor: payout and fee land together.
    complete_session(
        &mut ledger,
        CompleteSession { doctor: platform, patient, platform, mint, seed: 7 },
    )
    .unwrap();
    assert_eq!(ledger.balance(Authority::Wallet(platform), mint), 1_000);
    assert!(!ledger.record_exists(patient, 7));
}

#[test]
fn patient_who_is_the_platform_reclaims_everything() {
    let mut ledger = Ledger::new();
    let (patient, mint) = (pk(1), pk(4));
    ledger.create_wallet_account(patient, mint, 1_000).unwrap();
    start_session(&mut ledger, StartSession { patient, platform: patient, mint }, 7, 1_000)
        .unwrap();
    assert_eq!(ledger.balance(Authority::Wallet(patient), mint), 0);
    // Cancelling pays both the refund and the fee back to the same wallet.
    cancel_session(&mut ledger, CancelSession { patient, platform: patient, mint, seed: 7 })
        .unwrap();
    assert_eq!(ledger.balance(Authority::Wallet(patient), mint), 1_000);
    assert!(!ledger.record_exists(patient, 7));
}

#[test]
fn doctor_with_existing_account_keeps_prior_funds() {
    let mut ledger = Ledger::new();
    let (patient, doctor, platform, mint) = (pk(1), pk(2), pk(3), pk(4));
    ledger.create_wallet_account(patient, mint, 500).unwrap();
    ledger.create_wallet_account(doctor, mint, 40).unwrap();
    ledger.create_wallet_account(platform, mint, 0).unwrap();
    start_session(&mut ledger, StartSession { patient, platform, mint }, 9, 500).unwrap();
    complete_session(&mut ledger, CompleteSession { doctor, patient, platform, mint, seed: 9 })
        .unwrap();
    assert_eq!(ledger.balance(Authority::Wallet(doctor), mint), 40 + 450);
    assert_eq!(ledger.balance(Authority::Wallet(platform), mint), 50);
}
