use vstd::prelude::*;
use crate::engine::{run, step, Account, LedgerState};
use crate::transaction::{ClientId, Transaction, TransactionStatus, TransactionType};

verus! {

/// Applying one well-formed transaction to a consistent ledger leaves it consistent:
/// clients are listed once each, every account balances, and every stored entry is a
/// deposit with an amount under its own id.
pub proof fn lemma_step_consistent(s: LedgerState, tx: Transaction)
    requires
        s.wf(),
        tx.well_formed(),
    ensures
        step(s, tx).wf(),
{
    let c = tx.client_id;
    let s1 = s.with_account(c);
    let t = step(s, tx);
    if !s.accounts.contains_key(c) {
        assert forall|k: ClientId| #[trigger] s1.accounts.contains_key(k) <==> s1.clients.contains(k) by {
            if s.clients.contains(k) {
                let j = choose|j: int| 0 <= j < s.clients.len() && s.clients[j] == k;
                assert(s1.clients[j] == k);
            }
            if k == c {
                assert(s1.clients[s1.clients.len() - 1] == k);
            }
        }
    }
    assert(s1.accounts.contains_key(c));
    assert(t.accounts.dom() =~= s1.accounts.dom());
    assert forall|k: ClientId| #[trigger] t.accounts.contains_key(k) implies t.accounts[k].client_id
        == k && t.accounts[k].balanced() by {
        if k != c {
            assert(t.accounts[k] == s1.accounts[k]);
        }
    }
}

/// Totals balance: from a consistent ledger, after any sequence of well-formed
/// transactions, every account's total equals its available plus its held funds.
pub proof fn lemma_totals_balance(s: LedgerState, txs: Seq<Transaction>)
    requires
        s.wf(),
        forall|i: int| 0 <= i < txs.len() ==> (#[trigger] txs[i]).well_formed(),
    ensures
        run(s, txs).wf(),
        forall|c: ClientId| #[trigger]
            run(s, txs).accounts.contains_key(c) ==> run(s, txs).accounts[c].funds_total.units
                == run(s, txs).accounts[c].funds_available.units
                + run(s, txs).accounts[c].funds_held.units,
    decreases txs.len(),
{
    if txs.len() > 0 {
        let init = txs.drop_last();
        assert forall|i: int| 0 <= i < init.len() implies (#[trigger] init[i]).well_formed() by {
            assert(init[i] == txs[i]);
        }
        lemma_totals_balance(s, init);
        assert(txs.last() == txs[txs.len() - 1]);
        lemma_step_consistent(run(s, init), txs.last());
    }
    let r = run(s, txs);
    assert forall|c: ClientId| #[trigger] r.accounts.contains_key(c) implies r.accounts[c].balanced() by {}
}

/// A locked account stays locked: once an account is locked, it is still present
/// and locked after any further sequence of transactions.
pub proof fn lemma_locked_stays_locked(s: LedgerState, txs: Seq<Transaction>, c: ClientId)
    requires
        s.accounts.contains_key(c),
        s.accounts[c].locked,
    ensures
        run(s, txs).accounts.contains_key(c),
        run(s, txs).accounts[c].locked,
    decreases txs.len(),
{
    if txs.len() > 0 {
        lemma_locked_stays_locked(s, txs.drop_last(), c);
    }
}

/// Disputing twice counts as once: applying the same dispute a second time right
/// after the first changes no balance, lock or stored deposit, only the counter.
pub proof fn lemma_dispute_twice(s: LedgerState, d: Transaction)
    requires
        s.wf(),
        d.tx_type == TransactionType::Dispute,
    ensures
        ({
            let once = step(s, d);
            let twice = step(once, d);
            &&& twice.deposits == once.deposits
            &&& twice.clients == once.clients
            &&& twice.accounts.dom() == once.accounts.dom()
            &&& forall|k: ClientId| #[trigger]
                once.accounts.contains_key(k) ==> twice.accounts[k].same_funds(once.accounts[k])
        }),
{
    let once = step(s, d);
    let twice = step(once, d);
    let c = d.client_id;
    assert(once.accounts.contains_key(c));
    assert(twice.accounts.dom() =~= once.accounts.dom());
    assert forall|k: ClientId| #[trigger] once.accounts.contains_key(k) implies twice.accounts[
        k].same_funds(once.accounts[k]) by {}
}

/// Resolving a fresh dispute undoes it: a dispute followed at once by a resolve of
/// the same deposit by the same client gives back the available and held funds and
/// the stored deposits the ledger had before the dispute. The deposit must not be
/// under dispute already, for then the dispute is ignored and the resolve settles
/// the earlier one.
pub proof fn lemma_dispute_then_resolve(s: LedgerState, d: Transaction, r: Transaction)
    requires
        s.wf(),
        d.tx_type == TransactionType::Dispute,
        r.tx_type == TransactionType::Resolve,
        d.tx_id == r.tx_id,
        d.client_id == r.client_id,
        !(s.deposits.contains_key(d.tx_id) && s.deposits[d.tx_id].status
            == TransactionStatus::Disputed),
    ensures
        ({
            let after = step(step(s, d), r);
            let before: Account = s.account_of(d.client_id);
            &&& after.accounts[d.client_id].funds_available == before.funds_available
            &&& after.accounts[d.client_id].funds_held == before.funds_held
            &&& after.accounts[d.client_id].funds_total == before.funds_total
            &&& after.deposits == s.deposits
        }),
{
    let once = step(s, d);
    let after = step(once, r);
    let id = d.tx_id;
    if s.refers(d, TransactionStatus::OK) && once.deposits.contains_key(id) && once.deposits[id].status
        == TransactionStatus::Disputed {
        assert(after.deposits =~= s.deposits);
    }
}

} // verus!
