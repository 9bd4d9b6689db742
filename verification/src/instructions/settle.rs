//! The settlement step shared by Complete-Session and Cancel-Session.
//!
//! Once an operation has validated its accounts, both terminal paths do the
//! same thing: split the vault balance between a beneficiary and the
//! platform, move both shares out under the session's derived authority,
//! then destroy the emptied vault together with its record — all within one
//! atomic step.

use vstd::prelude::*;

use crate::fees::{doctor_amount_of, platform_fee, platform_fee_of, settlement_credit};
use crate::ledger::Ledger;
use crate::state::{Authority, Pubkey};

verus! {

/// Pays out the vault of the session at (patient, seed) — the beneficiary
/// receives the balance less the platform's fee, the platform receives the
/// fee — and then removes the emptied vault and the record. The caller has
/// already validated every account, so nothing here can fail.
pub(crate) fn distribute_and_close(
    ledger: &mut Ledger,
    patient: Pubkey,
    seed: u64,
    beneficiary: Pubkey,
    platform: Pubkey,
    mint: Pubkey,
) -> (v: u64)
    requires
        old(ledger).wf(),
        old(ledger).has_record(patient, seed),
        old(ledger).record_of(patient, seed).mint == mint,
        old(ledger).has_account(Authority::Wallet(platform), mint),
        ({
            let v0 = old(ledger).balance_of(Authority::Session(patient, seed), mint);
            &&& old(ledger).balance_of(Authority::Wallet(beneficiary), mint) + settlement_credit(
                beneficiary,
                platform,
                mint,
                doctor_amount_of(v0),
                platform_fee_of(v0),
                Authority::Wallet(beneficiary),
                mint,
            ) <= u64::MAX
            &&& old(ledger).balance_of(Authority::Wallet(platform), mint) + settlement_credit(
                beneficiary,
                platform,
                mint,
                doctor_amount_of(v0),
                platform_fee_of(v0),
                Authority::Wallet(platform),
                mint,
            ) <= u64::MAX
        }),
    ensures
        final(ledger).wf(),
        v == old(ledger).balance_of(Authority::Session(patient, seed), mint),
        !final(ledger).has_record(patient, seed),
        !final(ledger).has_account(Authority::Session(patient, seed), mint),
        final(ledger).has_account(Authority::Wallet(beneficiary), mint),
        final(ledger).balance_of(Authority::Wallet(beneficiary), mint) == old(ledger).balance_of(
            Authority::Wallet(beneficiary),
            mint,
        ) + settlement_credit(
            beneficiary,
            platform,
            mint,
            doctor_amount_of(v),
            platform_fee_of(v),
            Authority::Wallet(beneficiary),
            mint,
        ),
        final(ledger).balance_of(Authority::Wallet(platform), mint) == old(ledger).balance_of(
            Authority::Wallet(platform),
            mint,
        ) + settlement_credit(
            beneficiary,
            platform,
            mint,
            doctor_amount_of(v),
            platform_fee_of(v),
            Authority::Wallet(platform),
            mint,
        ),
        forall|p: Pubkey, s: u64|
            !(p == patient && s == seed) ==> #[trigger] final(ledger).has_record(p, s) == old(ledger).has_record(p, s),
        forall|p: Pubkey, s: u64|
            !(p == patient && s == seed) && old(ledger).has_record(p, s) ==> #[trigger] final(ledger).record_of(p, s) == old(ledger).record_of(p, s),
        forall|o: Authority, m: Pubkey|
            !(o == Authority::Session(patient, seed) && m == mint) && !(o == Authority::Wallet(
                beneficiary,
            ) && m == mint) ==> #[trigger] final(ledger).has_account(o, m) == old(ledger).has_account(o, m),
        forall|o: Authority, m: Pubkey|
            !(o == Authority::Session(patient, seed) && m == mint) ==> #[trigger] final(ledger).balance_of(o, m) as int == old(ledger).balance_of(o, m) + settlement_credit(
                beneficiary,
                platform,
                mint,
                doctor_amount_of(v),
                platform_fee_of(v),
                o,
                m,
            ),
{
    let vault_key = Authority::Session(patient, seed);
    let beneficiary_key = Authority::Wallet(beneficiary);
    let platform_key = Authority::Wallet(platform);
    let v = ledger.balance(vault_key, mint);
    let fee = platform_fee(v);
    proof {
        crate::fees::lemma_split_exact(v);
    }
    let share = v - fee;
    // The beneficiary's account is created on demand, as a settlement may
    // pay a party that never held this asset before.
    if !ledger.account_exists(beneficiary_key, mint) {
        let created = ledger.create_wallet_account(beneficiary, mint, 0);
        proof {
            assert(created is Ok);
        }
    }
    let ghost l1 = *ledger;
    proof {
        assert(l1.has_record(patient, seed) && l1.record_of(patient, seed) == old(ledger).record_of(patient, seed)) by {
            assert(l1.records@ == old(ledger).records@);
        }
        assert(l1.balance_of(vault_key, mint) == v);
    }
    // Both transfers move funds out of the vault under the session's own
    // derived authority; no human signer can produce them.
    ledger.transfer(mint, vault_key, beneficiary_key, share);
    let ghost l2 = *ledger;
    ledger.transfer(mint, vault_key, platform_key, fee);
    let ghost l3 = *ledger;
    proof {
        assert(l3.has_record(patient, seed) && l3.record_of(patient, seed) == old(ledger).record_of(patient, seed)) by {
            assert(l3.records@ == l2.records@ && l2.records@ == l1.records@ && l1.records@ == old(ledger).records@);
        }
        assert(l3.balance_of(vault_key, mint) == 0);
    }
    // The vault is empty: close it and the record in the same step.
    ledger.remove_session(patient, seed);
    proof {
        let lf = *ledger;
        let ghost cred = |o: Authority, m: Pubkey|
            settlement_credit(
                beneficiary,
                platform,
                mint,
                doctor_amount_of(v),
                platform_fee_of(v),
                o,
                m,
            );
        assert forall|p: Pubkey, s: u64| !(p == patient && s == seed) implies #[trigger]
        lf.has_record(p, s) == old(ledger).has_record(p, s) by {
            assert(l3.has_record(p, s) == l1.has_record(p, s)) by {
                assert(l3.records@ == l1.records@);
            }
            assert(l1.has_record(p, s) == old(ledger).has_record(p, s)) by {
                assert(l1.records@ == old(ledger).records@);
            }
            assert(lf.has_record(p, s) == l3.has_record(p, s));
        }
        assert forall|p: Pubkey, s: u64|
            !(p == patient && s == seed) && old(ledger).has_record(p, s) implies #[trigger]
        lf.record_of(p, s) == old(ledger).record_of(p, s) by {
            assert(l3.has_record(p, s) && l3.record_of(p, s) == old(ledger).record_of(p, s)) by {
                assert(l3.records@ == old(ledger).records@);
            }
            assert(lf.record_of(p, s) == l3.record_of(p, s));
        }
        assert forall|o: Authority, m: Pubkey|
            !(o == vault_key && m == mint) && !(o == beneficiary_key && m == mint) implies #[trigger]
        lf.has_account(o, m) == old(ledger).has_account(o, m) by {
            assert(lf.has_account(o, m) == l3.has_account(o, m));
            assert(l3.has_account(o, m) == l2.has_account(o, m));
            assert(l2.has_account(o, m) == l1.has_account(o, m));
            assert(l1.has_account(o, m) == old(ledger).has_account(o, m));
        }
        assert forall|o: Authority, m: Pubkey| !(o == vault_key && m == mint) implies #[trigger]
        lf.balance_of(o, m) as int == old(ledger).balance_of(o, m) + cred(o, m) by {
            assert(lf.balance_of(o, m) == l3.balance_of(o, m));
            if o == beneficiary_key && m == mint {
                if beneficiary == platform {
                    assert(l2.balance_of(o, m) == l1.balance_of(o, m) + share);
                    assert(l3.balance_of(o, m) == l2.balance_of(o, m) + fee);
                } else {
                    assert(l2.balance_of(o, m) == l1.balance_of(o, m) + share);
                    assert(l3.balance_of(o, m) == l2.balance_of(o, m));
                }
                assert(l1.balance_of(o, m) == old(ledger).balance_of(o, m));
            } else if o == platform_key && m == mint {
                assert(l2.balance_of(o, m) == l1.balance_of(o, m));
                assert(l3.balance_of(o, m) == l2.balance_of(o, m) + fee);
                assert(l1.balance_of(o, m) == old(ledger).balance_of(o, m));
            } else {
                assert(l2.balance_of(o, m) == l1.balance_of(o, m));
                assert(l3.balance_of(o, m) == l2.balance_of(o, m));
                assert(l1.balance_of(o, m) == old(ledger).balance_of(o, m));
            }
        }
    }
    v
}

} // verus!
