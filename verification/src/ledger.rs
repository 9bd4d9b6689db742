//! The ledger model the escrow sits on.
//!
//! The chain collaborators named by the design — the account store, the
//! deterministic address derivation and the fungible-asset transfer service —
//! are modeled as one explicit [`Ledger`] value: session records keyed by
//! (patient, seed) and token accounts keyed by (owner, mint). The escrow
//! operations mutate a `Ledger` through the verified methods below, each of
//! which states its exact effect pointwise over those keys.

use vstd::prelude::*;

use crate::errors::LedgerError;
use crate::state::{Authority, Escrow, Pubkey};

verus! {

/// A fungible-asset holding account: the balance of `amount` base units of
/// `mint`, controlled by `owner`.
#[derive(Clone, Copy, Debug, PartialEq, Eq, Structural)]
pub struct TokenAccount {
    pub owner: Authority,
    pub mint: Pubkey,
    pub amount: u64,
}

/// Whether a stored record answers to the (patient, seed) pair.
pub open spec fn record_matches(e: Escrow, patient: Pubkey, seed: u64) -> bool {
    e.patient == patient && e.seed == seed
}

/// Whether a token account answers to the (owner, mint) pair.
pub open spec fn account_matches(a: TokenAccount, owner: Authority, mint: Pubkey) -> bool {
    a.owner == owner && a.mint == mint
}

pub open spec fn seq_has_record(rs: Seq<Escrow>, patient: Pubkey, seed: u64) -> bool {
    exists|i: int| 0 <= i < rs.len() && record_matches(rs[i], patient, seed)
}

pub open spec fn seq_record_index(rs: Seq<Escrow>, patient: Pubkey, seed: u64) -> int {
    choose|i: int| 0 <= i < rs.len() && record_matches(rs[i], patient, seed)
}

pub open spec fn seq_record_of(rs: Seq<Escrow>, patient: Pubkey, seed: u64) -> Escrow {
    rs[seq_record_index(rs, patient, seed)]
}

pub open spec fn seq_has_account(ts: Seq<TokenAccount>, owner: Authority, mint: Pubkey) -> bool {
    exists|i: int| 0 <= i < ts.len() && account_matches(ts[i], owner, mint)
}

pub open spec fn seq_account_index(ts: Seq<TokenAccount>, owner: Authority, mint: Pubkey) -> int {
    choose|i: int| 0 <= i < ts.len() && account_matches(ts[i], owner, mint)
}

/// The balance held at (owner, mint); an absent account holds nothing.
pub open spec fn seq_balance_of(ts: Seq<TokenAccount>, owner: Authority, mint: Pubkey) -> u64 {
    if seq_has_account(ts, owner, mint) {
        ts[seq_account_index(ts, owner, mint)].amount
    } else {
        0
    }
}

/// No two records share a (patient, seed) pair.
pub open spec fn records_unique(rs: Seq<Escrow>) -> bool {
    forall|i: int, j: int|
        #![trigger rs[i], rs[j]]
        0 <= i < rs.len() && 0 <= j < rs.len() && i != j ==> !(rs[i].patient == rs[j].patient
            && rs[i].seed == rs[j].seed)
}

/// No two token accounts share an (owner, mint) pair.
pub open spec fn accounts_unique(ts: Seq<TokenAccount>) -> bool {
    forall|i: int, j: int|
        #![trigger ts[i], ts[j]]
        0 <= i < ts.len() && 0 <= j < ts.len() && i != j ==> !(ts[i].owner == ts[j].owner
            && ts[i].mint == ts[j].mint)
}

/// Under uniqueness, the record at index `i` is the one the lookup
/// specifications name for its own key.
pub proof fn lemma_record_at(rs: Seq<Escrow>, i: int)
    requires
        records_unique(rs),
        0 <= i < rs.len(),
    ensures
        seq_has_record(rs, rs[i].patient, rs[i].seed),
        seq_record_index(rs, rs[i].patient, rs[i].seed) == i,
        seq_record_of(rs, rs[i].patient, rs[i].seed) == rs[i],
{
    let p = rs[i].patient;
    let s = rs[i].seed;
    assert(record_matches(rs[i], p, s));
    assert(seq_has_record(rs, p, s));
    let j = seq_record_index(rs, p, s);
    assert(0 <= j < rs.len() && record_matches(rs[j], p, s));
    assert(j == i);
}

/// Under uniqueness, the account at index `i` is the one the lookup
/// specifications name for its own key.
pub proof fn lemma_account_at(ts: Seq<TokenAccount>, i: int)
    requires
        accounts_unique(ts),
        0 <= i < ts.len(),
    ensures
        seq_has_account(ts, ts[i].owner, ts[i].mint),
        seq_account_index(ts, ts[i].owner, ts[i].mint) == i,
        seq_balance_of(ts, ts[i].owner, ts[i].mint) == ts[i].amount,
{
    let o = ts[i].owner;
    let m = ts[i].mint;
    assert(account_matches(ts[i], o, m));
    assert(seq_has_account(ts, o, m));
    let j = seq_account_index(ts, o, m);
    assert(0 <= j < ts.len() && account_matches(ts[j], o, m));
    assert(j == i);
}

/// Appending a token account under a fresh key keeps the store unique and
/// changes no other key's existence or balance.
pub proof fn lemma_push_account(ts: Seq<TokenAccount>, ts2: Seq<TokenAccount>, e: TokenAccount)
    requires
        accounts_unique(ts),
        !seq_has_account(ts, e.owner, e.mint),
        ts2 == ts.push(e),
    ensures
        accounts_unique(ts2),
        seq_has_account(ts2, e.owner, e.mint),
        seq_balance_of(ts2, e.owner, e.mint) == e.amount,
        forall|o: Authority, m: Pubkey|
            !(o == e.owner && m == e.mint) ==> #[trigger] seq_has_account(ts2, o, m)
                == seq_has_account(ts, o, m),
        forall|o: Authority, m: Pubkey|
            !(o == e.owner && m == e.mint) ==> #[trigger] seq_balance_of(ts2, o, m)
                == seq_balance_of(ts, o, m),
{
    let n = ts.len() as int;
    assert(ts2[n] == e);
    assert forall|i: int, j: int|
        #![trigger ts2[i], ts2[j]]
        0 <= i < ts2.len() && 0 <= j < ts2.len() && i != j implies !(ts2[i].owner == ts2[j].owner
        && ts2[i].mint == ts2[j].mint) by {
        if i < n && j < n {
            assert(ts2[i] == ts[i] && ts2[j] == ts[j]);
        } else if i == n && j < n {
            assert(ts2[j] == ts[j]);
            if ts2[i].owner == ts2[j].owner && ts2[i].mint == ts2[j].mint {
                assert(account_matches(ts[j], e.owner, e.mint));
                assert(seq_has_account(ts, e.owner, e.mint));
            }
        } else if j == n && i < n {
            assert(ts2[i] == ts[i]);
            if ts2[i].owner == ts2[j].owner && ts2[i].mint == ts2[j].mint {
                assert(account_matches(ts[i], e.owner, e.mint));
                assert(seq_has_account(ts, e.owner, e.mint));
            }
        }
    }
    lemma_account_at(ts2, n);
    assert forall|o: Authority, m: Pubkey| !(o == e.owner && m == e.mint) implies #[trigger]
    seq_has_account(ts2, o, m) == seq_has_account(ts, o, m) by {
        lemma_push_account_key(ts, ts2, e, o, m);
    }
    assert forall|o: Authority, m: Pubkey| !(o == e.owner && m == e.mint) implies #[trigger]
    seq_balance_of(ts2, o, m) == seq_balance_of(ts, o, m) by {
        lemma_push_account_key(ts, ts2, e, o, m);
    }
}

/// One key's lookup is unchanged by appending an account under another key.
proof fn lemma_push_account_key(
    ts: Seq<TokenAccount>,
    ts2: Seq<TokenAccount>,
    e: TokenAccount,
    o: Authority,
    m: Pubkey,
)
    requires
        accounts_unique(ts),
        accounts_unique(ts2),
        !seq_has_account(ts, e.owner, e.mint),
        ts2 == ts.push(e),
        !(o == e.owner && m == e.mint),
    ensures
        seq_has_account(ts2, o, m) == seq_has_account(ts, o, m),
        seq_balance_of(ts2, o, m) == seq_balance_of(ts, o, m),
{
    let n = ts.len() as int;
    if seq_has_account(ts2, o, m) {
        let j = seq_account_index(ts2, o, m);
        assert(0 <= j < ts2.len() && account_matches(ts2[j], o, m));
        assert(j != n);
        assert(ts2[j] == ts[j]);
        lemma_account_at(ts, j);
        lemma_account_at(ts2, j);
    }
    if seq_has_account(ts, o, m) {
        let j = seq_account_index(ts, o, m);
        assert(0 <= j < ts.len() && account_matches(ts[j], o, m));
        assert(ts2[j] == ts[j]);
        lemma_account_at(ts, j);
        lemma_account_at(ts2, j);
    }
}

/// Rewriting the amount at index `i` keeps the store unique, changes no
/// key's existence, and changes no balance but the one at that key.
pub proof fn lemma_update_amount(
    ts: Seq<TokenAccount>,
    ts2: Seq<TokenAccount>,
    i: int,
    a: u64,
)
    requires
        accounts_unique(ts),
        0 <= i < ts.len(),
        ts2 == ts.update(i, (TokenAccount { owner: ts[i].owner, mint: ts[i].mint, amount: a })),
    ensures
        accounts_unique(ts2),
        forall|o: Authority, m: Pubkey| #[trigger]
            seq_has_account(ts2, o, m) == seq_has_account(ts, o, m),
        seq_has_account(ts2, ts[i].owner, ts[i].mint),
        seq_balance_of(ts2, ts[i].owner, ts[i].mint) == a,
        forall|o: Authority, m: Pubkey|
            !(o == ts[i].owner && m == ts[i].mint) ==> #[trigger] seq_balance_of(ts2, o, m)
                == seq_balance_of(ts, o, m),
{
    assert(ts2.len() == ts.len());
    assert(ts2[i].owner == ts[i].owner && ts2[i].mint == ts[i].mint && ts2[i].amount == a);
    assert forall|k: int| 0 <= k < ts.len() && k != i implies ts2[k] == ts[k] by {}
    assert forall|p: int, q: int|
        #![trigger ts2[p], ts2[q]]
        0 <= p < ts2.len() && 0 <= q < ts2.len() && p != q implies !(ts2[p].owner == ts2[q].owner
        && ts2[p].mint == ts2[q].mint) by {
        assert(ts2[p].owner == ts[p].owner && ts2[p].mint == ts[p].mint);
        assert(ts2[q].owner == ts[q].owner && ts2[q].mint == ts[q].mint);
    }
    lemma_account_at(ts2, i);
    assert forall|o: Authority, m: Pubkey| #[trigger]
    seq_has_account(ts2, o, m) == seq_has_account(ts, o, m) by {
        if seq_has_account(ts2, o, m) {
            let j = seq_account_index(ts2, o, m);
            assert(0 <= j < ts2.len() && account_matches(ts2[j], o, m));
            assert(ts2[j].owner == ts[j].owner && ts2[j].mint == ts[j].mint);
            assert(account_matches(ts[j], o, m));
            assert(seq_has_account(ts, o, m));
        }
        if seq_has_account(ts, o, m) {
            let j = seq_account_index(ts, o, m);
            assert(0 <= j < ts.len() && account_matches(ts[j], o, m));
            assert(ts2[j].owner == ts[j].owner && ts2[j].mint == ts[j].mint);
            assert(account_matches(ts2[j], o, m));
            assert(seq_has_account(ts2, o, m));
        }
    }
    assert forall|o: Authority, m: Pubkey|
        !(o == ts[i].owner && m == ts[i].mint) implies #[trigger] seq_balance_of(ts2, o, m)
        == seq_balance_of(ts, o, m) by {
        if seq_has_account(ts, o, m) {
            let j = seq_account_index(ts, o, m);
            assert(0 <= j < ts.len() && account_matches(ts[j], o, m));
            assert(j != i);
            assert(ts2[j] == ts[j]);
            lemma_account_at(ts, j);
            lemma_account_at(ts2, j);
        }
    }
}

/// Removing the account at index `i` keeps the store unique, erases exactly
/// that key, and changes no other key's existence or balance.
pub proof fn lemma_remove_account(ts: Seq<TokenAccount>, ts2: Seq<TokenAccount>, i: int)
    requires
        accounts_unique(ts),
        0 <= i < ts.len(),
        ts2 == ts.remove(i),
    ensures
        accounts_unique(ts2),
        !seq_has_account(ts2, ts[i].owner, ts[i].mint),
        forall|o: Authority, m: Pubkey|
            !(o == ts[i].owner && m == ts[i].mint) ==> #[trigger] seq_has_account(ts2, o, m)
                == seq_has_account(ts, o, m),
        forall|o: Authority, m: Pubkey|
            !(o == ts[i].owner && m == ts[i].mint) ==> #[trigger] seq_balance_of(ts2, o, m)
                == seq_balance_of(ts, o, m),
{
    ts.remove_ensures(i);
    assert(ts2.len() == ts.len() - 1);
    assert forall|k: int| 0 <= k < ts2.len() implies ts2[k] == (if k < i {
        ts[k]
    } else {
        ts[k + 1]
    }) by {}
    assert forall|p: int, q: int|
        #![trigger ts2[p], ts2[q]]
        0 <= p < ts2.len() && 0 <= q < ts2.len() && p != q implies !(ts2[p].owner == ts2[q].owner
        && ts2[p].mint == ts2[q].mint) by {
        let p0 = if p < i { p } else { p + 1 };
        let q0 = if q < i { q } else { q + 1 };
        assert(ts2[p] == ts[p0] && ts2[q] == ts[q0]);
        assert(p0 != q0);
    }
    assert forall|o: Authority, m: Pubkey|
        !seq_has_account(ts2, o, m) || !(o == ts[i].owner && m == ts[i].mint) by {
        if seq_has_account(ts2, o, m) && o == ts[i].owner && m == ts[i].mint {
            let j = seq_account_index(ts2, o, m);
            assert(0 <= j < ts2.len() && account_matches(ts2[j], o, m));
            let j0 = if j < i { j } else { j + 1 };
            assert(ts2[j] == ts[j0]);
            assert(j0 != i);
            assert(ts[j0].owner == ts[i].owner && ts[j0].mint == ts[i].mint);
        }
    }
    assert(!seq_has_account(ts2, ts[i].owner, ts[i].mint));
    assert forall|o: Authority, m: Pubkey|
        !(o == ts[i].owner && m == ts[i].mint) implies #[trigger] seq_has_account(ts2, o, m)
        == seq_has_account(ts, o, m) by {
        lemma_remove_account_key(ts, ts2, i, o, m);
    }
    assert forall|o: Authority, m: Pubkey|
        !(o == ts[i].owner && m == ts[i].mint) implies #[trigger] seq_balance_of(ts2, o, m)
        == seq_balance_of(ts, o, m) by {
        lemma_remove_account_key(ts, ts2, i, o, m);
    }
}

/// One key's lookup is unchanged by removing an account under another key.
proof fn lemma_remove_account_key(
    ts: Seq<TokenAccount>,
    ts2: Seq<TokenAccount>,
    i: int,
    o: Authority,
    m: Pubkey,
)
    requires
        accounts_unique(ts),
        accounts_unique(ts2),
        0 <= i < ts.len(),
        ts2 == ts.remove(i),
        !(o == ts[i].owner && m == ts[i].mint),
    ensures
        seq_has_account(ts2, o, m) == seq_has_account(ts, o, m),
        seq_balance_of(ts2, o, m) == seq_balance_of(ts, o, m),
{
    ts.remove_ensures(i);
    if seq_has_account(ts2, o, m) {
        let j = seq_account_index(ts2, o, m);
        assert(0 <= j < ts2.len() && account_matches(ts2[j], o, m));
        let j0 = if j < i { j } else { j + 1 };
        assert(ts2[j] == ts[j0]);
        assert(account_matches(ts[j0], o, m));
        lemma_account_at(ts, j0);
        lemma_account_at(ts2, j);
    }
    if seq_has_account(ts, o, m) {
        let j0 = seq_account_index(ts, o, m);
        assert(0 <= j0 < ts.len() && account_matches(ts[j0], o, m));
        assert(j0 != i);
        let j = if j0 < i { j0 } else { j0 - 1 };
        assert(ts2[j] == ts[j0]);
        assert(account_matches(ts2[j], o, m));
        lemma_account_at(ts, j0);
        lemma_account_at(ts2, j);
    }
}

/// Appending a record under a fresh key keeps the store unique and changes
/// no other key's lookup.
pub proof fn lemma_push_record(rs: Seq<Escrow>, rs2: Seq<Escrow>, e: Escrow)
    requires
        records_unique(rs),
        !seq_has_record(rs, e.patient, e.seed),
        rs2 == rs.push(e),
    ensures
        records_unique(rs2),
        seq_has_record(rs2, e.patient, e.seed),
        seq_record_of(rs2, e.patient, e.seed) == e,
        forall|p: Pubkey, s: u64|
            !(p == e.patient && s == e.seed) ==> #[trigger] seq_has_record(rs2, p, s)
                == seq_has_record(rs, p, s),
        forall|p: Pubkey, s: u64|
            !(p == e.patient && s == e.seed) && seq_has_record(rs, p, s) ==> #[trigger]
            seq_record_of(rs2, p, s) == seq_record_of(rs, p, s),
{
    let n = rs.len() as int;
    assert(rs2[n] == e);
    assert forall|i: int, j: int|
        #![trigger rs2[i], rs2[j]]
        0 <= i < rs2.len() && 0 <= j < rs2.len() && i != j implies !(rs2[i].patient
        == rs2[j].patient && rs2[i].seed == rs2[j].seed) by {
        if i < n && j < n {
            assert(rs2[i] == rs[i] && rs2[j] == rs[j]);
        } else if i == n && j < n {
            assert(rs2[j] == rs[j]);
            if rs2[i].patient == rs2[j].patient && rs2[i].seed == rs2[j].seed {
                assert(record_matches(rs[j], e.patient, e.seed));
                assert(seq_has_record(rs, e.patient, e.seed));
            }
        } else if j == n && i < n {
            assert(rs2[i] == rs[i]);
            if rs2[i].patient == rs2[j].patient && rs2[i].seed == rs2[j].seed {
                assert(record_matches(rs[i], e.patient, e.seed));
                assert(seq_has_record(rs, e.patient, e.seed));
            }
        }
    }
    lemma_record_at(rs2, n);
    assert forall|p: Pubkey, s: u64| !(p == e.patient && s == e.seed) implies #[trigger]
    seq_has_record(rs2, p, s) == seq_has_record(rs, p, s) by {
        lemma_push_record_key(rs, rs2, e, p, s);
    }
    assert forall|p: Pubkey, s: u64|
        !(p == e.patient && s == e.seed) && seq_has_record(rs, p, s) implies #[trigger]
    seq_record_of(rs2, p, s) == seq_record_of(rs, p, s) by {
        lemma_push_record_key(rs, rs2, e, p, s);
    }
}

/// One key's lookup is unchanged by appending a record under another key.
proof fn lemma_push_record_key(rs: Seq<Escrow>, rs2: Seq<Escrow>, e: Escrow, p: Pubkey, s: u64)
    requires
        records_unique(rs),
        records_unique(rs2),
        !seq_has_record(rs, e.patient, e.seed),
        rs2 == rs.push(e),
        !(p == e.patient && s == e.seed),
    ensures
        seq_has_record(rs2, p, s) == seq_has_record(rs, p, s),
        seq_has_record(rs, p, s) ==> seq_record_of(rs2, p, s) == seq_record_of(rs, p, s),
{
    let n = rs.len() as int;
    if seq_has_record(rs2, p, s) {
        let j = seq_record_index(rs2, p, s);
        assert(0 <= j < rs2.len() && record_matches(rs2[j], p, s));
        assert(j != n);
        assert(rs2[j] == rs[j]);
        lemma_record_at(rs, j);
        lemma_record_at(rs2, j);
    }
    if seq_has_record(rs, p, s) {
        let j = seq_record_index(rs, p, s);
        assert(0 <= j < rs.len() && record_matches(rs[j], p, s));
        assert(rs2[j] == rs[j]);
        lemma_record_at(rs, j);
        lemma_record_at(rs2, j);
    }
}

/// Removing the record at index `i` keeps the store unique, erases exactly
/// that key, and changes no other key's lookup.
pub proof fn lemma_remove_record(rs: Seq<Escrow>, rs2: Seq<Escrow>, i: int)
    requires
        records_unique(rs),
        0 <= i < rs.len(),
        rs2 == rs.remove(i),
    ensures
        records_unique(rs2),
        !seq_has_record(rs2, rs[i].patient, rs[i].seed),
        forall|p: Pubkey, s: u64|
            !(p == rs[i].patient && s == rs[i].seed) ==> #[trigger] seq_has_record(rs2, p, s)
                == seq_has_record(rs, p, s),
        forall|p: Pubkey, s: u64|
            !(p == rs[i].patient && s == rs[i].seed) && seq_has_record(rs, p, s) ==> #[trigger]
            seq_record_of(rs2, p, s) == seq_record_of(rs, p, s),
{
    rs.remove_ensures(i);
    assert(rs2.len() == rs.len() - 1);
    assert forall|k: int| 0 <= k < rs2.len() implies rs2[k] == (if k < i {
        rs[k]
    } else {
        rs[k + 1]
    }) by {}
    assert forall|p: int, q: int|
        #![trigger rs2[p], rs2[q]]
        0 <= p < rs2.len() && 0 <= q < rs2.len() && p != q implies !(rs2[p].patient
        == rs2[q].patient && rs2[p].seed == rs2[q].seed) by {
        let p0 = if p < i { p } else { p + 1 };
        let q0 = if q < i { q } else { q + 1 };
        assert(rs2[p] == rs[p0] && rs2[q] == rs[q0]);
        assert(p0 != q0);
    }
    if seq_has_record(rs2, rs[i].patient, rs[i].seed) {
        let j = seq_record_index(rs2, rs[i].patient, rs[i].seed);
        assert(0 <= j < rs2.len() && record_matches(rs2[j], rs[i].patient, rs[i].seed));
        let j0 = if j < i { j } else { j + 1 };
        assert(rs2[j] == rs[j0]);
        assert(j0 != i);
        assert(rs[j0].patient == rs[i].patient && rs[j0].seed == rs[i].seed);
    }
    assert forall|p: Pubkey, s: u64|
        !(p == rs[i].patient && s == rs[i].seed) implies #[trigger] seq_has_record(rs2, p, s)
        == seq_has_record(rs, p, s) by {
        lemma_remove_record_key(rs, rs2, i, p, s);
    }
    assert forall|p: Pubkey, s: u64|
        !(p == rs[i].patient && s == rs[i].seed) && seq_has_record(rs, p, s) implies #[trigger]
    seq_record_of(rs2, p, s) == seq_record_of(rs, p, s) by {
        lemma_remove_record_key(rs, rs2, i, p, s);
    }
}

/// One key's lookup is unchanged by removing a record under another key.
proof fn lemma_remove_record_key(rs: Seq<Escrow>, rs2: Seq<Escrow>, i: int, p: Pubkey, s: u64)
    requires
        records_unique(rs),
        records_unique(rs2),
        0 <= i < rs.len(),
        rs2 == rs.remove(i),
        !(p == rs[i].patient && s == rs[i].seed),
    ensures
        seq_has_record(rs2, p, s) == seq_has_record(rs, p, s),
        seq_has_record(rs, p, s) ==> seq_record_of(rs2, p, s) == seq_record_of(rs, p, s),
{
    rs.remove_ensures(i);
    if seq_has_record(rs2, p, s) {
        let j = seq_record_index(rs2, p, s);
        assert(0 <= j < rs2.len() && record_matches(rs2[j], p, s));
        let j0 = if j < i { j } else { j + 1 };
        assert(rs2[j] == rs[j0]);
        assert(record_matches(rs[j0], p, s));
        lemma_record_at(rs, j0);
        lemma_record_at(rs2, j);
    }
    if seq_has_record(rs, p, s) {
        let j0 = seq_record_index(rs, p, s);
        assert(0 <= j0 < rs.len() && record_matches(rs[j0], p, s));
        assert(j0 != i);
        let j = if j0 < i { j0 } else { j0 - 1 };
        assert(rs2[j] == rs[j0]);
        assert(record_matches(rs2[j], p, s));
        lemma_record_at(rs, j0);
        lemma_record_at(rs2, j);
    }
}

/// The whole modeled chain state: every session record and every token
/// account the escrow can observe or touch.
pub struct Ledger {
    pub records: Vec<Escrow>,
    pub accounts: Vec<TokenAccount>,
}

impl Ledger {
    pub open spec fn has_record(self, patient: Pubkey, seed: u64) -> bool {
        seq_has_record(self.records@, patient, seed)
    }

    pub open spec fn record_of(self, patient: Pubkey, seed: u64) -> Escrow {
        seq_record_of(self.records@, patient, seed)
    }

    pub open spec fn has_account(self, owner: Authority, mint: Pubkey) -> bool {
        seq_has_account(self.accounts@, owner, mint)
    }

    pub open spec fn balance_of(self, owner: Authority, mint: Pubkey) -> u64 {
        seq_balance_of(self.accounts@, owner, mint)
    }

    /// Every stored record answers to its own key and carries the salt
    /// derived from that key.
    pub open spec fn records_derived(self) -> bool {
        forall|p: Pubkey, s: u64|
            #[trigger] self.has_record(p, s) ==> self.record_of(p, s).patient == p
                && self.record_of(p, s).seed == s && self.record_of(p, s).bump
                == crate::state::bump_of(p, s)
    }

    /// Every record's vault exists: a session holds its escrowed balance for
    /// exactly as long as its record exists.
    pub open spec fn vaults_backed(self) -> bool {
        forall|p: Pubkey, s: u64|
            #[trigger] self.has_record(p, s) ==> self.has_account(
                Authority::Session(p, s),
                self.record_of(p, s).mint,
            )
    }

    /// Every session-owned token account belongs to a live record of the
    /// same asset: no vault outlives its record.
    pub open spec fn vaults_owned(self) -> bool {
        forall|p: Pubkey, s: u64, m: Pubkey|
            #[trigger] self.has_account(Authority::Session(p, s), m) ==> self.has_record(p, s)
                && self.record_of(p, s).mint == m
    }

    /// Well-formedness: unique keys on both stores, correctly derived salts,
    /// and records and vaults created and destroyed together.
    pub open spec fn wf(self) -> bool {
        &&& records_unique(self.records@)
        &&& accounts_unique(self.accounts@)
        &&& self.records_derived()
        &&& self.vaults_backed()
        &&& self.vaults_owned()
    }

    /// An empty ledger: no records, no accounts.
    pub fn new() -> (l: Ledger)
        ensures
            l.wf(),
            forall|p: Pubkey, s: u64| !l.has_record(p, s),
            forall|o: Authority, m: Pubkey| !l.has_account(o, m),
            forall|o: Authority, m: Pubkey| l.balance_of(o, m) == 0,
    {
        Ledger { records: Vec::new(), accounts: Vec::new() }
    }

    /// Linear scan for the record keyed by (patient, seed).
    pub(crate) fn find_record(&self, patient: Pubkey, seed: u64) -> (r: Option<usize>)
        ensures
            match r {
                Some(i) => i < self.records@.len() && record_matches(
                    self.records@[i as int],
                    patient,
                    seed,
                ) && self.has_record(patient, seed),
                None => !self.has_record(patient, seed),
            },
    {
        let n = self.records.len();
        let mut i: usize = 0;
        while i < n
            invariant
                i <= n,
                n == self.records@.len(),
                forall|j: int| 0 <= j < i ==> !record_matches(self.records@[j], patient, seed),
            decreases n - i,
        {
            let e = self.records[i];
            if e.patient == patient && e.seed == seed {
                assert(record_matches(self.records@[i as int], patient, seed));
                return Some(i);
            }
            i += 1;
        }
        None
    }

    /// Linear scan for the token account keyed by (owner, mint).
    pub(crate) fn find_account(&self, owner: Authority, mint: Pubkey) -> (r: Option<usize>)
        ensures
            match r {
                Some(i) => i < self.accounts@.len() && account_matches(
                    self.accounts@[i as int],
                    owner,
                    mint,
                ) && self.has_account(owner, mint),
                None => !self.has_account(owner, mint),
            },
    {
        let n = self.accounts.len();
        let mut i: usize = 0;
        while i < n
            invariant
                i <= n,
                n == self.accounts@.len(),
                forall|j: int| 0 <= j < i ==> !account_matches(self.accounts@[j], owner, mint),
            decreases n - i,
        {
            let a = self.accounts[i];
            if a.owner == owner && a.mint == mint {
                assert(account_matches(self.accounts@[i as int], owner, mint));
                return Some(i);
            }
            i += 1;
        }
        None
    }

    /// Whether a token account exists for (owner, mint).
    pub fn account_exists(&self, owner: Authority, mint: Pubkey) -> (r: bool)
        ensures
            r == self.has_account(owner, mint),
    {
        self.find_account(owner, mint).is_some()
    }

    /// Whether a session record exists for (patient, seed).
    pub fn record_exists(&self, patient: Pubkey, seed: u64) -> (r: bool)
        ensures
            r == self.has_record(patient, seed),
    {
        self.find_record(patient, seed).is_some()
    }

    /// Creates a wallet-owned token account holding `amount` of `mint`, as
    /// the token collaborator would on a mint-to or account-creation call.
    /// Session-owned accounts can never be created this way: vaults come
    /// into being only together with their record.
    pub fn create_wallet_account(&mut self, owner: Pubkey, mint: Pubkey, amount: u64) -> (r:
        Result<(), LedgerError>)
        requires
            old(self).wf(),
        ensures
            final(self).wf(),
            r == (if old(self).has_account(Authority::Wallet(owner), mint) {
                Result::<(), LedgerError>::Err(LedgerError::AlreadyInitialized)
            } else {
                Result::<(), LedgerError>::Ok(())
            }),
            r is Err ==> *final(self) == *old(self),
            final(self).records@ == old(self).records@,
            r is Ok ==> final(self).has_account(Authority::Wallet(owner), mint) && final(self).balance_of(
                Authority::Wallet(owner),
                mint,
            ) == amount,
            forall|o: Authority, m: Pubkey|
                !(o == Authority::Wallet(owner) && m == mint) ==> #[trigger] final(self).has_account(o, m)
                    == old(self).has_account(o, m),
            forall|o: Authority, m: Pubkey|
                !(o == Authority::Wallet(owner) && m == mint) ==> #[trigger] final(self).balance_of(o, m)
                    == old(self).balance_of(o, m),
    {
        let key = Authority::Wallet(owner);
        match self.find_account(key, mint) {
            Some(_) => Err(LedgerError::AlreadyInitialized),
            None => {
                let ghost l1 = *self;
                let entry = TokenAccount { owner: key, mint, amount };
                self.accounts.push(entry);
                proof {
                    lemma_push_account(l1.accounts@, self.accounts@, entry);
                    lemma_wf_accounts_neutral(l1, *self);
                }
                Ok(())
            },
        }
    }

    /// Moves `amount` base units of `mint` between two distinct existing
    /// accounts, as the fungible-asset transfer collaborator does: the exact
    /// amount moves or nothing does, and no other balance is touched.
    pub(crate) fn transfer(&mut self, mint: Pubkey, from: Authority, to: Authority, amount: u64)
        requires
            old(self).wf(),
            from != to,
            old(self).has_account(from, mint),
            old(self).has_account(to, mint),
            amount <= old(self).balance_of(from, mint),
            old(self).balance_of(to, mint) + amount <= u64::MAX,
        ensures
            final(self).wf(),
            final(self).records@ == old(self).records@,
            forall|o: Authority, m: Pubkey| #[trigger]
                final(self).has_account(o, m) == old(self).has_account(o, m),
            final(self).balance_of(from, mint) == old(self).balance_of(from, mint) - amount,
            final(self).balance_of(to, mint) == old(self).balance_of(to, mint) + amount,
            forall|o: Authority, m: Pubkey|
                !(o == from && m == mint) && !(o == to && m == mint) ==> #[trigger] final(self).balance_of(
                    o,
                    m,
                ) == old(self).balance_of(o, m),
    {
        let fi = match self.find_account(from, mint) {
            Some(i) => i,
            // Unreachable: the preconditions guarantee the entry exists.
            None => {
                proof {
                    assert(false);
                }
                0
            },
        };
        proof {
            lemma_account_at(self.accounts@, fi as int);
        }
        let ghost l1 = *self;
        let debited = TokenAccount {
            owner: from,
            mint,
            amount: self.accounts[fi].amount - amount,
        };
        self.accounts[fi] = debited;
        proof {
            assert(l1.accounts@[fi as int].owner == from && l1.accounts@[fi as int].mint == mint);
            lemma_update_amount(l1.accounts@, self.accounts@, fi as int, debited.amount);
            lemma_wf_accounts_neutral(l1, *self);
        }
        let ghost l2 = *self;
        let ti = match self.find_account(to, mint) {
            Some(i) => i,
            // Unreachable: the preconditions guarantee the entry exists.
            None => {
                proof {
                    assert(false);
                }
                0
            },
        };
        proof {
            lemma_account_at(self.accounts@, ti as int);
        }
        let credited = TokenAccount { owner: to, mint, amount: self.accounts[ti].amount + amount };
        self.accounts[ti] = credited;
        proof {
            assert(l2.accounts@[ti as int].owner == to && l2.accounts@[ti as int].mint == mint);
            lemma_update_amount(l2.accounts@, self.accounts@, ti as int, credited.amount);
            lemma_wf_accounts_neutral(l2, *self);
        }
    }

    /// Creates a session's record together with its empty vault: the record
    /// is filed under (patient, seed) and the vault is owned by the derived
    /// session authority, so both come into being in the same step.
    pub(crate) fn install_session(&mut self, escrow: Escrow)
        requires
            old(self).wf(),
            !old(self).has_record(escrow.patient, escrow.seed),
            escrow.bump == crate::state::bump_of(escrow.patient, escrow.seed),
        ensures
            final(self).wf(),
            final(self).has_record(escrow.patient, escrow.seed),
            final(self).record_of(escrow.patient, escrow.seed) == escrow,
            forall|p: Pubkey, s: u64|
                !(p == escrow.patient && s == escrow.seed) ==> #[trigger] final(self).has_record(p, s)
                    == old(self).has_record(p, s),
            forall|p: Pubkey, s: u64|
                !(p == escrow.patient && s == escrow.seed) && old(self).has_record(p, s)
                    ==> #[trigger] final(self).record_of(p, s) == old(self).record_of(p, s),
            final(self).has_account(Authority::Session(escrow.patient, escrow.seed), escrow.mint),
            final(self).balance_of(Authority::Session(escrow.patient, escrow.seed), escrow.mint) == 0,
            forall|o: Authority, m: Pubkey|
                !(o == Authority::Session(escrow.patient, escrow.seed) && m == escrow.mint)
                    ==> #[trigger] final(self).has_account(o, m) == old(self).has_account(o, m),
            forall|o: Authority, m: Pubkey|
                !(o == Authority::Session(escrow.patient, escrow.seed) && m == escrow.mint)
                    ==> #[trigger] final(self).balance_of(o, m) == old(self).balance_of(o, m),
    {
        let ghost l1 = *self;
        let vault_owner = Authority::Session(escrow.patient, escrow.seed);
        proof {
            // No record, hence no vault: a session-owned account would name a record.
            assert(!l1.has_account(vault_owner, escrow.mint));
        }
        let vault = TokenAccount { owner: vault_owner, mint: escrow.mint, amount: 0 };
        self.records.push(escrow);
        self.accounts.push(vault);
        proof {
            lemma_push_record(l1.records@, self.records@, escrow);
            lemma_push_account(l1.accounts@, self.accounts@, vault);
            lemma_wf_session_installed(l1, *self, escrow);
        }
    }

    /// Destroys a settled session: the vault (which must already be empty)
    /// and the record vanish in the same step, and nothing else moves.
    pub(crate) fn remove_session(&mut self, patient: Pubkey, seed: u64)
        requires
            old(self).wf(),
            old(self).has_record(patient, seed),
            old(self).balance_of(
                Authority::Session(patient, seed),
                old(self).record_of(patient, seed).mint,
            ) == 0,
        ensures
            final(self).wf(),
            !final(self).has_record(patient, seed),
            forall|p: Pubkey, s: u64|
                !(p == patient && s == seed) ==> #[trigger] final(self).has_record(p, s) == old(
                    self,
                ).has_record(p, s),
            forall|p: Pubkey, s: u64|
                !(p == patient && s == seed) && old(self).has_record(p, s) ==> #[trigger]
                final(self).record_of(p, s) == old(self).record_of(p, s),
            !final(self).has_account(
                Authority::Session(patient, seed),
                old(self).record_of(patient, seed).mint,
            ),
            forall|o: Authority, m: Pubkey|
                !(o == Authority::Session(patient, seed) && m == old(self).record_of(
                    patient,
                    seed,
                ).mint) ==> #[trigger] final(self).has_account(o, m) == old(self).has_account(o, m),
            forall|o: Authority, m: Pubkey|
                !(o == Authority::Session(patient, seed) && m == old(self).record_of(
                    patient,
                    seed,
                ).mint) ==> #[trigger] final(self).balance_of(o, m) == old(self).balance_of(o, m),
    {
        let ri = match self.find_record(patient, seed) {
            Some(i) => i,
            // Unreachable: the preconditions guarantee the entry exists.
            None => {
                proof {
                    assert(false);
                }
                0
            },
        };
        proof {
            lemma_record_at(self.records@, ri as int);
        }
        let mint = self.records[ri].mint;
        let vault_owner = Authority::Session(patient, seed);
        let vi = match self.find_account(vault_owner, mint) {
            Some(i) => i,
            // Unreachable: the preconditions guarantee the entry exists.
            None => {
                proof {
                    assert(false);
                }
                0
            },
        };
        let ghost l1 = *self;
        self.accounts.remove(vi);
        self.records.remove(ri);
        proof {
            assert(l1.accounts@[vi as int].owner == vault_owner && l1.accounts@[vi as int].mint
                == mint);
            assert(l1.records@[ri as int].patient == patient && l1.records@[ri as int].seed
                == seed);
            lemma_remove_account(l1.accounts@, self.accounts@, vi as int);
            lemma_remove_record(l1.records@, self.records@, ri as int);
            lemma_wf_session_removed(l1, *self, patient, seed);
        }
    }

    /// The balance held at (owner, mint); an absent account holds nothing.
    pub fn balance(&self, owner: Authority, mint: Pubkey) -> (r: u64)
        requires
            accounts_unique(self.accounts@),
        ensures
            r == self.balance_of(owner, mint),
    {
        match self.find_account(owner, mint) {
            Some(i) => {
                proof {
                    lemma_account_at(self.accounts@, i as int);
                }
                self.accounts[i].amount
            },
            None => 0,
        }
    }
}

/// A record exists exactly as long as its vault does: on a well-formed
/// ledger the session at (patient, seed) either has both its record and a
/// vault of the recorded asset, or neither — they are created together and
/// destroyed together.
pub proof fn lemma_record_iff_vault(l: Ledger, patient: Pubkey, seed: u64)
    requires
        l.wf(),
    ensures
        l.has_record(patient, seed) ==> l.has_account(
            Authority::Session(patient, seed),
            l.record_of(patient, seed).mint,
        ),
        !l.has_record(patient, seed) ==> forall|m: Pubkey|
            !l.has_account(Authority::Session(patient, seed), m),
{
    if !l.has_record(patient, seed) {
        assert forall|m: Pubkey| !l.has_account(Authority::Session(patient, seed), m) by {
            if l.has_account(Authority::Session(patient, seed), m) {
                assert(l.has_record(patient, seed));
            }
        }
    }
}

/// Well-formedness is kept by account changes that touch no session-owned
/// key's existence and leave the records untouched.
proof fn lemma_wf_accounts_neutral(l1: Ledger, l2: Ledger)
    requires
        l1.wf(),
        accounts_unique(l2.accounts@),
        l2.records@ == l1.records@,
        forall|p: Pubkey, s: u64, m: Pubkey| #[trigger]
            l2.has_account(Authority::Session(p, s), m) == l1.has_account(
                Authority::Session(p, s),
                m,
            ),
    ensures
        l2.wf(),
{
    assert forall|p: Pubkey, s: u64| #[trigger] l2.has_record(p, s) implies l2.record_of(
        p,
        s,
    ).patient == p && l2.record_of(p, s).seed == s && l2.record_of(p, s).bump
        == crate::state::bump_of(p, s) by {
        assert(l1.has_record(p, s));
        assert(l2.record_of(p, s) == l1.record_of(p, s));
    }
    assert forall|p: Pubkey, s: u64| #[trigger] l2.has_record(p, s) implies l2.has_account(
        Authority::Session(p, s),
        l2.record_of(p, s).mint,
    ) by {
        assert(l1.has_record(p, s));
        assert(l1.has_account(Authority::Session(p, s), l1.record_of(p, s).mint));
        assert(l2.record_of(p, s) == l1.record_of(p, s));
    }
    assert forall|p: Pubkey, s: u64, m: Pubkey| #[trigger]
    l2.has_account(Authority::Session(p, s), m) implies l2.has_record(p, s) && l2.record_of(
        p,
        s,
    ).mint == m by {
        assert(l1.has_account(Authority::Session(p, s), m));
        assert(l1.has_record(p, s));
        assert(l2.record_of(p, s) == l1.record_of(p, s));
    }
}

/// Well-formedness is kept by installing a fresh record together with its
/// empty vault and touching nothing else.
proof fn lemma_wf_session_installed(l1: Ledger, l2: Ledger, e: Escrow)
    requires
        l1.wf(),
        !l1.has_record(e.patient, e.seed),
        e.bump == crate::state::bump_of(e.patient, e.seed),
        records_unique(l2.records@),
        accounts_unique(l2.accounts@),
        l2.has_record(e.patient, e.seed),
        l2.record_of(e.patient, e.seed) == e,
        forall|p: Pubkey, s: u64|
            !(p == e.patient && s == e.seed) ==> #[trigger] l2.has_record(p, s) == l1.has_record(
                p,
                s,
            ),
        forall|p: Pubkey, s: u64|
            !(p == e.patient && s == e.seed) && l1.has_record(p, s) ==> #[trigger] l2.record_of(
                p,
                s,
            ) == l1.record_of(p, s),
        l2.has_account(Authority::Session(e.patient, e.seed), e.mint),
        forall|o: Authority, m: Pubkey|
            !(o == Authority::Session(e.patient, e.seed) && m == e.mint) ==> #[trigger]
            l2.has_account(o, m) == l1.has_account(o, m),
    ensures
        l2.wf(),
{
    assert forall|p: Pubkey, s: u64| #[trigger] l2.has_record(p, s) implies l2.record_of(
        p,
        s,
    ).patient == p && l2.record_of(p, s).seed == s && l2.record_of(p, s).bump
        == crate::state::bump_of(p, s) by {
        if !(p == e.patient && s == e.seed) {
            assert(l1.has_record(p, s));
        }
    }
    assert forall|p: Pubkey, s: u64| #[trigger] l2.has_record(p, s) implies l2.has_account(
        Authority::Session(p, s),
        l2.record_of(p, s).mint,
    ) by {
        if !(p == e.patient && s == e.seed) {
            assert(l1.has_record(p, s));
            assert(l1.has_account(Authority::Session(p, s), l1.record_of(p, s).mint));
        }
    }
    assert forall|p: Pubkey, s: u64, m: Pubkey| #[trigger]
    l2.has_account(Authority::Session(p, s), m) implies l2.has_record(p, s) && l2.record_of(
        p,
        s,
    ).mint == m by {
        if !(p == e.patient && s == e.seed && m == e.mint) {
            assert(l1.has_account(Authority::Session(p, s), m));
            assert(l1.has_record(p, s));
            assert(!(p == e.patient && s == e.seed));
        }
    }
}

/// Well-formedness is kept by removing a record together with its emptied
/// vault and touching nothing else.
proof fn lemma_wf_session_removed(l1: Ledger, l2: Ledger, patient: Pubkey, seed: u64)
    requires
        l1.wf(),
        l1.has_record(patient, seed),
        records_unique(l2.records@),
        accounts_unique(l2.accounts@),
        !l2.has_record(patient, seed),
        forall|p: Pubkey, s: u64|
            !(p == patient && s == seed) ==> #[trigger] l2.has_record(p, s) == l1.has_record(p, s),
        forall|p: Pubkey, s: u64|
            !(p == patient && s == seed) && l1.has_record(p, s) ==> #[trigger] l2.record_of(p, s)
                == l1.record_of(p, s),
        !l2.has_account(Authority::Session(patient, seed), l1.record_of(patient, seed).mint),
        forall|o: Authority, m: Pubkey|
            !(o == Authority::Session(patient, seed) && m == l1.record_of(patient, seed).mint)
                ==> #[trigger] l2.has_account(o, m) == l1.has_account(o, m),
    ensures
        l2.wf(),
{
    let vm = l1.record_of(patient, seed).mint;
    assert forall|p: Pubkey, s: u64| #[trigger] l2.has_record(p, s) implies l2.record_of(
        p,
        s,
    ).patient == p && l2.record_of(p, s).seed == s && l2.record_of(p, s).bump
        == crate::state::bump_of(p, s) by {
        assert(!(p == patient && s == seed));
        assert(l1.has_record(p, s));
    }
    assert forall|p: Pubkey, s: u64| #[trigger] l2.has_record(p, s) implies l2.has_account(
        Authority::Session(p, s),
        l2.record_of(p, s).mint,
    ) by {
        assert(!(p == patient && s == seed));
        assert(l1.has_record(p, s));
        assert(l1.has_account(Authority::Session(p, s), l1.record_of(p, s).mint));
    }
    assert forall|p: Pubkey, s: u64, m: Pubkey| #[trigger]
    l2.has_account(Authority::Session(p, s), m) implies l2.has_record(p, s) && l2.record_of(
        p,
        s,
    ).mint == m by {
        if p == patient && s == seed {
            assert(m != vm);
            assert(l1.has_account(Authority::Session(p, s), m));
            assert(l1.record_of(p, s).mint == m);
            assert(false);
        } else {
            assert(l1.has_account(Authority::Session(p, s), m));
            assert(l1.has_record(p, s));
        }
    }
}

} // verus!
