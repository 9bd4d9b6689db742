//! The settlement arithmetic shared by both terminal operations.
//!
//! Every settlement splits the vault balance the same way: the platform
//! takes one tenth, rounded down, and the remainder goes whole to the
//! operation's beneficiary — the doctor on a completion, the patient on a
//! cancellation. The split is exact: nothing is lost to rounding.

use vstd::prelude::*;

use crate::state::{Authority, Pubkey};

verus! {

/// How much a settlement credits to the token-account key (o, m): the
/// beneficiary's share and the platform's fee land on their accounts of the
/// settled asset, everything else receives nothing. The two summands model
/// the two transfers, so a party playing both roles receives both amounts.
pub open spec fn settlement_credit(
    beneficiary: Pubkey,
    platform: Pubkey,
    mint: Pubkey,
    share: int,
    fee: int,
    o: Authority,
    m: Pubkey,
) -> int {
    (if o == Authority::Wallet(beneficiary) && m == mint {
        share
    } else {
        0
    }) + (if o == Authority::Wallet(platform) && m == mint {
        fee
    } else {
        0
    })
}

/// The platform's fee on a vault balance `v`: ten percent, rounded down.
pub open spec fn platform_fee_of(v: u64) -> int {
    (10 * v) / 100
}

/// What the doctor is paid when a session with vault balance `v` completes.
pub open spec fn doctor_amount_of(v: u64) -> int {
    v - platform_fee_of(v)
}

/// What the patient is refunded when a session with vault balance `v` is
/// cancelled.
pub open spec fn refund_amount_of(v: u64) -> int {
    v - platform_fee_of(v)
}

/// The fee never exceeds the balance it is taken from.
pub proof fn lemma_fee_bounds(v: u64)
    ensures
        0 <= platform_fee_of(v) <= v,
{
    vstd::arithmetic::div_mod::lemma_div_is_ordered(0, 10 * v, 100);
    vstd::arithmetic::div_mod::lemma_div_is_ordered(10 * v, 100 * v, 100);
    vstd::arithmetic::div_mod::lemma_div_multiples_vanish(v as int, 100);
}

/// A settlement distributes the vault balance exactly: the beneficiary's
/// share and the platform's fee always sum to the whole balance, for every
/// balance, with no remainder lost.
pub proof fn lemma_split_exact(v: u64)
    ensures
        platform_fee_of(v) + doctor_amount_of(v) == v,
        0 <= platform_fee_of(v) <= v,
        0 <= doctor_amount_of(v) <= v,
{
    lemma_fee_bounds(v);
}

/// Cancelling splits the balance identically to completing: the patient's
/// refund equals what the doctor would have been paid, and the platform's
/// fee is the same on both paths.
pub proof fn lemma_cancel_split_matches_complete(v: u64)
    ensures
        refund_amount_of(v) == doctor_amount_of(v),
        refund_amount_of(v) + platform_fee_of(v) == v,
{
    lemma_split_exact(v);
}

/// Computes the platform's fee in a widened integer domain, so the
/// intermediate product cannot overflow.
pub fn platform_fee(v: u64) -> (f: u64)
    ensures
        f == platform_fee_of(v),
{
    proof {
        lemma_fee_bounds(v);
    }
    ((10u128 * (v as u128)) / 100) as u64
}

} // verus!
