//! End-to-end exercises of the escrow over a fresh ledger.

use telehealthsol_escrow::errors::{EscrowError, LedgerError, ProgramError};
use telehealthsol_escrow::fees::platform_fee;
use telehealthsol_escrow::instructions::cancel_session::CancelSession;
use telehealthsol_escrow::instructions::complete_session::CompleteSession;
use telehealthsol_escrow::instructions::start_session::StartSession;
use telehealthsol_escrow::ledger::Ledger;
use telehealthsol_escrow::state::{Authority, Pubkey};
use telehealthsol_escrow::{cancel_session, complete_session, start_session};

fn pk(n: u128) -> Pubkey {
    Pubkey { hi: n, lo: n.wrapping_mul(31) + 7 }
}

/// A ledger with a funded patient, a doctor, a platform fee account and one
/// asset; returns (ledger, patient, doctor, platform, mint).
fn setup(patient_funds: u64) -> (Ledger, Pubkey, Pubkey, Pubkey, Pubkey) {
    let mut ledger = Ledger::new();
    let patient = pk(1);
    let doctor = pk(2);
    let platform = pk(3);
    let mint = pk(4);
    ledger.create_wallet_account(patient, mint, patient_funds).unwrap();
    ledger.create_wallet_account(platform, mint, 0).unwrap();
    (ledger, patient, doctor, platform, mint)
}

fn open(
    ledger: &mut Ledger,
    patient: Pubkey,
    platform: Pubkey,
    mint: Pubkey,
    seed: u64,
    amount: u64,
) -> Result<(), ProgramError> {
    start_session(ledger, StartSession { patient, platform, mint }, seed, amount)
}

#[test]
fn open_escrows_deposit() {
    let (mut ledger, patient, _doctor, platform, mint) = setup(1_000);
    open(&mut ledger, patient, platform, mint, 7, 250).unwrap();
    assert!(ledger.record_exists(patient, 7));
    assert_eq!(ledger.balance(Authority::Wallet(patient), mint), 750);
    assert_eq!(ledger.balance(Authority::Session(patient, 7), mint), 250);
}

#[test]
fn open_zero_amount_rejected() {
    let (mut ledger, patient, _doctor, platform, mint) = setup(1_000);
    let r = open(&mut ledger, patient, platform, mint, 7, 0);
    assert_eq!(r, Err(ProgramError::Escrow(EscrowError::InvalidSessionAmount)));
    assert!(!ledger.record_exists(patient, 7));
    assert_eq!(ledger.balance(Authority::Wallet(patient), mint), 1_000);
    assert_eq!(ledger.balance(Authority::Session(patient, 7), mint), 0);
}

#[test]
fn open_insufficient_funds_rejected() {
    let (mut ledger, patient, _doctor, platform, mint) = setup(10);
    let r = open(&mut ledger, patient, platform, mint, 7, 50);
    assert_eq!(r, Err(ProgramError::Escrow(EscrowError::InsufficientFunds)));
    assert!(!ledger.record_exists(patient, 7));
    assert_eq!(ledger.balance(Authority::Wallet(patient), mint), 10);
}

#[test]
fn open_duplicate_seed_rejected() {
    let (mut ledger, patient, _doctor, platform, mint) = setup(1_000);
    open(&mut ledger, patient, platform, mint, 7, 100).unwrap();
    let r = open(&mut ledger, patient, platform, mint, 7, 100);
    assert_eq!(r, Err(ProgramError::Ledger(LedgerError::AlreadyInitialized)));
    assert_eq!(ledger.balance(Authority::Wallet(patient), mint), 900);
    assert_eq!(ledger.balance(Authority::Session(patient, 7), mint), 100);
}

#[test]
fn complete_splits_ninety_ten() {
    let (mut ledger, patient, doctor, platform, mint) = setup(10_000);
    for (seed, amount, expect_platform, expect_doctor) in
        [(1u64, 1_000u64, 100u64, 900u64), (2, 7, 0, 7), (3, 999, 99, 900)]
    {
        let doctor_before = ledger.balance(Authority::Wallet(doctor), mint);
        let platform_before = ledger.balance(Authority::Wallet(platform), mint);
        open(&mut ledger, patient, platform, mint, seed, amount).unwrap();
        complete_session(
            &mut ledger,
            CompleteSession { doctor, patient, platform, mint, seed },
        )
        .unwrap();
        let doctor_gain = ledger.balance(Authority::Wallet(doctor), mint) - doctor_before;
        let platform_gain = ledger.balance(Authority::Wallet(platform), mint) - platform_before;
        assert_eq!(platform_gain, expect_platform);
        assert_eq!(doctor_gain, expect_doctor);
        assert_eq!(doctor_gain + platform_gain, amount);
    }
}

#[test]
fn cancel_refunds_patient() {
    let (mut ledger, patient, _doctor, platform, mint) = setup(1_000);
    open(&mut ledger, patient, platform, mint, 7, 1_000).unwrap();
    cancel_session(&mut ledger, CancelSession { patient, platform, mint, seed: 7 }).unwrap();
    assert_eq!(ledger.balance(Authority::Wallet(patient), mint), 900);
    assert_eq!(ledger.balance(Authority::Wallet(platform), mint), 100);
    assert!(!ledger.record_exists(patient, 7));
}

#[test]
fn cancel_matches_complete_split() {
    // Two sessions with the same amount: one completed, one cancelled. The
    // platform's fee and the beneficiary's share are identical on both paths.
    let (mut ledger, patient, doctor, platform, mint) = setup(2_468);
    open(&mut ledger, patient, platform, mint, 1, 1_234).unwrap();
    open(&mut ledger, patient, platform, mint, 2, 1_234).unwrap();
    assert_eq!(ledger.balance(Authority::Wallet(patient), mint), 0);

    complete_session(&mut ledger, CompleteSession { doctor, patient, platform, mint, seed: 1 })
        .unwrap();
    let doctor_share = ledger.balance(Authority::Wallet(doctor), mint);
    let fee_after_complete = ledger.balance(Authority::Wallet(platform), mint);

    cancel_session(&mut ledger, CancelSession { patient, platform, mint, seed: 2 }).unwrap();
    let patient_refund = ledger.balance(Authority::Wallet(patient), mint);
    let fee_after_cancel = ledger.balance(Authority::Wallet(platform), mint) - fee_after_complete;

    assert_eq!(patient_refund, doctor_share);
    assert_eq!(fee_after_cancel, fee_after_complete);
    assert_eq!(doctor_share + fee_after_complete, 1_234);
}

#[test]
fn settlement_removes_session() {
    let (mut ledger, patient, doctor, platform, mint) = setup(1_000);
    open(&mut ledger, patient, platform, mint, 7, 500).unwrap();
    complete_session(&mut ledger, CompleteSession { doctor, patient, platform, mint, seed: 7 })
        .unwrap();
    assert!(!ledger.record_exists(patient, 7));
    assert!(!ledger.account_exists(Authority::Session(patient, 7), mint));

    // A rival settlement of the same session sees only the missing record.
    let again =
        complete_session(&mut ledger, CompleteSession { doctor, patient, platform, mint, seed: 7 });
    assert_eq!(again, Err(ProgramError::Ledger(LedgerError::RecordNotFound)));
    let cancelled = cancel_session(&mut ledger, CancelSession { patient, platform, mint, seed: 7 });
    assert_eq!(cancelled, Err(ProgramError::Ledger(LedgerError::RecordNotFound)));
}

#[test]
fn settle_without_record_fails() {
    let (mut ledger, patient, doctor, platform, mint) = setup(1_000);
    let r =
        complete_session(&mut ledger, CompleteSession { doctor, patient, platform, mint, seed: 9 });
    assert_eq!(r, Err(ProgramError::Ledger(LedgerError::RecordNotFound)));
    let r = cancel_session(&mut ledger, CancelSession { patient, platform, mint, seed: 9 });
    assert_eq!(r, Err(ProgramError::Ledger(LedgerError::RecordNotFound)));
    assert_eq!(ledger.balance(Authority::Wallet(patient), mint), 1_000);
    assert_eq!(ledger.balance(Authority::Wallet(platform), mint), 0);
}

#[test]
fn wrong_mint_rejected() {
    let (mut ledger, patient, doctor, platform, mint) = setup(1_000);
    let other_mint = pk(40);
    ledger.create_wallet_account(platform, other_mint, 0).unwrap();
    open(&mut ledger, patient, platform, mint, 7, 400).unwrap();
    let r = complete_session(
        &mut ledger,
        CompleteSession { doctor, patient, platform, mint: other_mint, seed: 7 },
    );
    assert_eq!(r, Err(ProgramError::Escrow(EscrowError::InvalidMint)));
    let r = cancel_session(
        &mut ledger,
        CancelSession { patient, platform, mint: other_mint, seed: 7 },
    );
    assert_eq!(r, Err(ProgramError::Escrow(EscrowError::InvalidMint)));
    // Nothing moved: the vault still holds the whole deposit.
    assert_eq!(ledger.balance(Authority::Session(patient, 7), mint), 400);
    assert_eq!(ledger.balance(Authority::Wallet(platform), mint), 0);
}

#[test]
fn wrong_platform_rejected() {
    let (mut ledger, patient, doctor, platform, mint) = setup(1_000);
    let other_platform = pk(30);
    ledger.create_wallet_account(other_platform, mint, 0).unwrap();
    open(&mut ledger, patient, platform, mint, 7, 400).unwrap();
    let r = complete_session(
        &mut ledger,
        CompleteSession { doctor, patient, platform: other_platform, mint, seed: 7 },
    );
    assert_eq!(r, Err(ProgramError::Escrow(EscrowError::InvalidPlatformFee)));
    assert_eq!(ledger.balance(Authority::Session(patient, 7), mint), 400);
}

#[test]
fn missing_platform_account_rejected() {
    let mut ledger = Ledger::new();
    let (patient, doctor, platform, mint) = (pk(1), pk(2), pk(3), pk(4));
    ledger.create_wallet_account(patient, mint, 1_000).unwrap();
    open(&mut ledger, patient, platform, mint, 7, 400).unwrap();
    let r =
        complete_session(&mut ledger, CompleteSession { doctor, patient, platform, mint, seed: 7 });
    assert_eq!(r, Err(ProgramError::Ledger(LedgerError::AccountNotInitialized)));
    assert_eq!(ledger.balance(Authority::Session(patient, 7), mint), 400);
}

#[test]
fn doctor_balance_overflow_rejected() {
    let (mut ledger, patient, doctor, platform, mint) = setup(1_000);
    ledger.create_wallet_account(doctor, mint, u64::MAX).unwrap();
    open(&mut ledger, patient, platform, mint, 7, 1_000).unwrap();
    let r =
        complete_session(&mut ledger, CompleteSession { doctor, patient, platform, mint, seed: 7 });
    assert_eq!(r, Err(ProgramError::Ledger(LedgerError::BalanceOverflow)));
    // The failure is atomic: the session is still fully intact.
    assert!(ledger.record_exists(patient, 7));
    assert_eq!(ledger.balance(Authority::Session(patient, 7), mint), 1_000);
    assert_eq!(ledger.balance(Authority::Wallet(doctor), mint), u64::MAX);
}

#[test]
fn duplicate_wallet_account_rejected() {
    let mut ledger = Ledger::new();
    let (wallet, mint) = (pk(1), pk(4));
    ledger.create_wallet_account(wallet, mint, 5).unwrap();
    let r = ledger.create_wallet_account(wallet, mint, 9);
    assert_eq!(r, Err(LedgerError::AlreadyInitialized));
    assert_eq!(ledger.balance(Authority::Wallet(wallet), mint), 5);
}

#[test]
fn platform_fee_exact_values() {
    assert_eq!(platform_fee(0), 0);
    assert_eq!(platform_fee(7), 0);
    assert_eq!(platform_fee(10), 1);
    assert_eq!(platform_fee(999), 99);
    assert_eq!(platform_fee(1_000), 100);
    assert_eq!(platform_fee(u64::MAX), u64::MAX / 10);
}
