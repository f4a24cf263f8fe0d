use vstd::prelude::*;
use std::collections::HashMap;
use crate::amount::Amount;
use crate::transaction::{ClientId, Transaction, TransactionId, TransactionStatus, TransactionType};

verus! {

broadcast use vstd::std_specs::hash::group_hash_axioms;

/// The balances and status of one client.
#[derive(Debug, Clone, Copy, PartialEq, Eq, Structural)]
pub struct Account {
    pub client_id: ClientId,
    pub num_transactions: u32,
    pub funds_available: Amount,
    pub funds_held: Amount,
    pub funds_total: Amount,
    pub locked: bool,
}

/// Failures of the ledger's lookup and store primitives.
#[derive(Debug, Clone, Copy, PartialEq, Eq, Structural)]
pub enum LedgerError {
    UnknownClient,
    DuplicateTransactionId,
}

/// The ledger as mathematical maps: accounts by client, stored deposits by
/// transaction id, and clients in the order their accounts were opened.
pub struct LedgerState {
    pub accounts: Map<ClientId, Account>,
    pub deposits: Map<TransactionId, Transaction>,
    pub clients: Seq<ClientId>,
}

pub open spec fn fits(x: int) -> bool {
    i128::MIN <= x <= i128::MAX
}

impl Account {
    /// Total funds are the available funds plus the held funds.
    pub open spec fn balanced(self) -> bool {
        self.funds_total.units == self.funds_available.units + self.funds_held.units
    }

    /// Whether moving `da` into available and `dh` into held stays representable.
    pub open spec fn can_shift(self, da: int, dh: int) -> bool {
        fits(self.funds_available.units + da) && fits(self.funds_held.units + dh) && fits(
            self.funds_total.units + da + dh,
        )
    }

    /// The account with `da` added to available, `dh` to held, and both to total.
    pub open spec fn shift(self, da: int, dh: int) -> Account {
        Account {
            funds_available: Amount { units: (self.funds_available.units + da) as i128 },
            funds_held: Amount { units: (self.funds_held.units + dh) as i128 },
            funds_total: Amount { units: (self.funds_total.units + da + dh) as i128 },
            ..self
        }
    }

    /// The account with one more transaction counted (the counter saturates).
    pub open spec fn counted(self) -> Account {
        Account {
            num_transactions: if self.num_transactions < u32::MAX {
                (self.num_transactions + 1) as u32
            } else {
                self.num_transactions
            },
            ..self
        }
    }

    /// Same client, balances and lock; the transaction counter may differ.
    pub open spec fn same_funds(self, other: Account) -> bool {
        self.client_id == other.client_id && self.funds_available == other.funds_available
            && self.funds_held == other.funds_held && self.funds_total == other.funds_total
            && self.locked == other.locked
    }
}

/// A newly opened account: no funds, not locked.
pub open spec fn fresh_account(c: ClientId) -> Account {
    Account {
        client_id: c,
        num_transactions: 0,
        funds_available: Amount { units: 0 },
        funds_held: Amount { units: 0 },
        funds_total: Amount { units: 0 },
        locked: false,
    }
}

impl LedgerState {
    pub open spec fn wf(self) -> bool {
        &&& self.clients.no_duplicates()
        &&& forall|c: ClientId| #[trigger]
            self.accounts.contains_key(c) <==> self.clients.contains(c)
        &&& forall|c: ClientId| #[trigger]
            self.accounts.contains_key(c) ==> self.accounts[c].client_id == c
                && self.accounts[c].balanced()
        &&& forall|id: TransactionId| #[trigger]
            self.deposits.contains_key(id) ==> self.deposits[id].tx_id == id
                && self.deposits[id].tx_type == TransactionType::Deposit
                && self.deposits[id].amount is Some
    }

    /// The client's account, or a fresh one if the client is unseen.
    pub open spec fn account_of(self, c: ClientId) -> Account {
        if self.accounts.contains_key(c) {
            self.accounts[c]
        } else {
            fresh_account(c)
        }
    }

    /// The ledger after opening an account for `c` if it has none.
    pub open spec fn with_account(self, c: ClientId) -> LedgerState {
        if self.accounts.contains_key(c) {
            self
        } else {
            LedgerState {
                accounts: self.accounts.insert(c, fresh_account(c)),
                deposits: self.deposits,
                clients: self.clients.push(c),
            }
        }
    }

    /// Whether `tx` refers to a stored deposit of its own client in status `st`.
    pub open spec fn refers(self, tx: Transaction, st: TransactionStatus) -> bool {
        self.deposits.contains_key(tx.tx_id) && self.deposits[tx.tx_id].status == st
            && self.deposits[tx.tx_id].client_id == tx.client_id
    }

    /// The amount of the stored deposit that `tx` refers to.
    pub open spec fn referred_amount(self, tx: Transaction) -> int {
        self.deposits[tx.tx_id].amount.unwrap().units as int
    }

    /// The stored deposit that `tx` refers to, moved to status `st`.
    pub open spec fn set_status(self, tx: Transaction, st: TransactionStatus) -> Map<
        TransactionId,
        Transaction,
    > {
        self.deposits.insert(tx.tx_id, Transaction { status: st, ..self.deposits[tx.tx_id] })
    }
}

/// The ledger after applying one transaction. The client's account is opened if
/// needed and its counter advances; a transaction whose rule does not apply, or whose
/// effect would leave the representable range, changes nothing else.
pub open spec fn step(s: LedgerState, tx: Transaction) -> LedgerState {
    let c = tx.client_id;
    let s1 = s.with_account(c);
    let a = s1.accounts[c].counted();
    let (acct, deposits) = match tx.tx_type {
        TransactionType::Deposit => {
            let amt = tx.amount.unwrap().units as int;
            if !s.deposits.contains_key(tx.tx_id) && a.can_shift(amt, 0) {
                (
                    a.shift(amt, 0),
                    s.deposits.insert(tx.tx_id, Transaction { status: TransactionStatus::OK, ..tx }),
                )
            } else {
                (a, s.deposits)
            }
        },
        TransactionType::Withdrawal => {
            let amt = tx.amount.unwrap().units as int;
            if a.funds_available.units >= amt && a.can_shift(-amt, 0) {
                (a.shift(-amt, 0), s.deposits)
            } else {
                (a, s.deposits)
            }
        },
        TransactionType::Dispute => {
            let amt = s.referred_amount(tx);
            if s.refers(tx, TransactionStatus::OK) && a.can_shift(-amt, amt) {
                (a.shift(-amt, amt), s.set_status(tx, TransactionStatus::Disputed))
            } else {
                (a, s.deposits)
            }
        },
        TransactionType::Resolve => {
            let amt = s.referred_amount(tx);
            if s.refers(tx, TransactionStatus::Disputed) && a.can_shift(amt, -amt) {
                (a.shift(amt, -amt), s.set_status(tx, TransactionStatus::OK))
            } else {
                (a, s.deposits)
            }
        },
        TransactionType::Chargeback => {
            let amt = s.referred_amount(tx);
            if s.refers(tx, TransactionStatus::Disputed) && a.can_shift(amt, -amt) {
                (
                    Account { locked: true, ..a.shift(amt, -amt) },
                    s.set_status(tx, TransactionStatus::Chargedback),
                )
            } else {
                (a, s.deposits)
            }
        },
    };
    LedgerState { accounts: s1.accounts.insert(c, acct), deposits, clients: s1.clients }
}

/// The ledger after applying a sequence of transactions in order.
pub open spec fn run(s: LedgerState, txs: Seq<Transaction>) -> LedgerState
    decreases txs.len(),
{
    if txs.len() == 0 {
        s
    } else {
        step(run(s, txs.drop_last()), txs.last())
    }
}

/// `amt`, its negation, or zero, as `sign` is 1, -1 or 0.
pub open spec fn signed(sign: i8, amt: i128) -> int {
    if sign == 1 {
        amt as int
    } else if sign == -1 {
        -amt
    } else {
        0
    }
}

/// Moves `amt` by the given signs into available and held funds, when the
/// result stays representable.
fn try_shift(a: Account, amt: i128, to_available: i8, to_held: i8) -> (r: Option<Account>)
    requires
        a.balanced(),
        -1 <= to_available <= 1,
        -1 <= to_held <= 1,
        -1 <= to_available + to_held <= 1,
    ensures
        r == if a.can_shift(signed(to_available, amt), signed(to_held, amt)) {
            Some(a.shift(signed(to_available, amt), signed(to_held, amt)))
        } else {
            None
        },
{
    let av = a.funds_available.units;
    let h = a.funds_held.units;
    let t = a.funds_total.units;
    let na = if to_available == 1 {
        av.checked_add(amt)
    } else if to_available == -1 {
        av.checked_sub(amt)
    } else {
        Some(av)
    };
    let nh = if to_held == 1 {
        h.checked_add(amt)
    } else if to_held == -1 {
        h.checked_sub(amt)
    } else {
        Some(h)
    };
    let nt = if to_available + to_held == 1 {
        t.checked_add(amt)
    } else if to_available + to_held == -1 {
        t.checked_sub(amt)
    } else {
        Some(t)
    };
    match (na, nh, nt) {
        (Some(x), Some(y), Some(z)) => Some(
            Account {
                funds_available: Amount { units: x },
                funds_held: Amount { units: y },
                funds_total: Amount { units: z },
                ..a
            },
        ),
        _ => None,
    }
}

/// Applies transaction records, in order, to a ledger of accounts and deposits.
pub struct PaymentEngine {
    accounts: HashMap<ClientId, Account>,
    transactions: HashMap<TransactionId, Transaction>,
    clients: Vec<ClientId>,
}

impl PaymentEngine {
    pub closed spec fn state(&self) -> LedgerState {
        LedgerState {
            accounts: self.accounts@,
            deposits: self.transactions@,
            clients: self.clients@,
        }
    }

    pub open spec fn wf(&self) -> bool {
        self.state().wf()
    }

    /// An empty ledger.
    pub fn new() -> (r: PaymentEngine)
        ensures
            r.wf(),
            r.state().accounts == Map::<ClientId, Account>::empty(),
            r.state().deposits == Map::<TransactionId, Transaction>::empty(),
            r.state().clients == Seq::<ClientId>::empty(),
    {
        PaymentEngine { accounts: HashMap::new(), transactions: HashMap::new(), clients: Vec::new() }
    }

    /// The client's account, opening a fresh one first if the client is unseen.
    pub fn get_or_create_account(&mut self, client_id: ClientId) -> (r: Account)
        requires
            old(self).wf(),
        ensures
            final(self).wf(),
            final(self).state() == old(self).state().with_account(client_id),
            r == old(self).state().account_of(client_id),
    {
        match self.accounts.get(&client_id) {
            Some(a) => *a,
            None => {
                let a = Account {
                    client_id,
                    num_transactions: 0,
                    funds_available: Amount { units: 0 },
                    funds_held: Amount { units: 0 },
                    funds_total: Amount { units: 0 },
                    locked: false,
                };
                self.accounts.insert(client_id, a);
                self.clients.push(client_id);
                proof {
                    let s = self.state();
                    assert(s.accounts == old(self).state().accounts.insert(client_id, a));
                    assert forall|c: ClientId| #[trigger]
                        s.accounts.contains_key(c) <==> s.clients.contains(c) by {
                        if c != client_id {
                            assert(s.clients.contains(c) <==> old(self).state().clients.contains(
                                c,
                            )) by {
                                if old(self).state().clients.contains(c) {
                                    let k = choose|k: int|
                                        0 <= k < old(self).state().clients.len()
                                            && old(self).state().clients[k] == c;
                                    assert(s.clients[k] == c);
                                }
                            }
                        } else {
                            assert(s.clients[s.clients.len() - 1] == c);
                        }
                    }
                }
                a
            },
        }
    }

    /// The client's account, or `UnknownClient` if it has none.
    pub fn get_account(&self, client_id: ClientId) -> (r: Result<Account, LedgerError>)
        ensures
            r == if self.state().accounts.contains_key(client_id) {
                Ok::<Account, LedgerError>(self.state().accounts[client_id])
            } else {
                Err(LedgerError::UnknownClient)
            },
    {
        match self.accounts.get(&client_id) {
            Some(a) => Ok(*a),
            None => Err(LedgerError::UnknownClient),
        }
    }

    /// The stored deposit with this id, if any.
    pub fn get_transaction(&self, tx_id: TransactionId) -> (r: Option<Transaction>)
        ensures
            r == if self.state().deposits.contains_key(tx_id) {
                Some(self.state().deposits[tx_id])
            } else {
                None
            },
    {
        match self.transactions.get(&tx_id) {
            Some(t) => Some(*t),
            None => None,
        }
    }

    /// Stores a deposit under its id, unless that id is already stored.
    pub fn record_deposit(&mut self, tx: Transaction) -> (r: Result<(), LedgerError>)
        requires
            old(self).wf(),
            tx.tx_type == TransactionType::Deposit,
            tx.amount is Some,
        ensures
            final(self).wf(),
            r is Err <==> old(self).state().deposits.contains_key(tx.tx_id),
            r is Err ==> r == Err::<(), LedgerError>(LedgerError::DuplicateTransactionId),
            final(self).state() == (if r is Err {
                old(self).state()
            } else {
                LedgerState { deposits: old(self).state().deposits.insert(tx.tx_id, tx), ..old(self).state() }
            }),
    {
        if self.transactions.contains_key(&tx.tx_id) {
            Err(LedgerError::DuplicateTransactionId)
        } else {
            self.transactions.insert(tx.tx_id, tx);
            Ok(())
        }
    }

    /// Moves the stored deposit that `tx` refers to from status `from` to `to` and
    /// shifts its amount by the given signs, when the deposit belongs to the same
    /// client, is in status `from`, and the shift stays representable. The flag says
    /// whether that happened.
    fn settle(
        &mut self,
        account: Account,
        tx: &Transaction,
        from: TransactionStatus,
        to: TransactionStatus,
        to_available: i8,
        to_held: i8,
    ) -> (r: (Account, bool))
        requires
            old(self).wf(),
            account.balanced(),
            -1 <= to_available <= 1,
            -1 <= to_held <= 1,
            -1 <= to_available + to_held <= 1,
        ensures
            final(self).wf(),
            ({
                let s = old(self).state();
                let amt = s.deposits[tx.tx_id].amount.unwrap().units;
                if s.refers(*tx, from) && account.can_shift(
                    signed(to_available, amt),
                    signed(to_held, amt),
                ) {
                    &&& r.1
                    &&& r.0 == account.shift(signed(to_available, amt), signed(to_held, amt))
                    &&& final(self).state() == LedgerState { deposits: s.set_status(*tx, to), ..s }
                } else {
                    &&& !r.1
                    &&& r.0 == account
                    &&& final(self).state() == s
                }
            }),
    {
        match self.transactions.get(&tx.tx_id) {
            Some(orig) => {
                let orig = *orig;
                if orig.status == from && orig.client_id == tx.client_id {
                    match try_shift(account, orig.amount.unwrap().units, to_available, to_held) {
                        Some(a) => {
                            self.transactions.insert(tx.tx_id, Transaction { status: to, ..orig });
                            (a, true)
                        },
                        None => (account, false),
                    }
                } else {
                    (account, false)
                }
            },
            None => (account, false),
        }
    }

    /// Applies one transaction: opens the client's account if needed, counts the
    /// transaction, and applies its rule when that rule's precondition holds.
    pub fn process_transaction(&mut self, transaction: Transaction)
        requires
            old(self).wf(),
            transaction.well_formed(),
        ensures
            final(self).wf(),
            final(self).state() == step(old(self).state(), transaction),
    {
        let c = transaction.client_id;
        let mut account = self.get_or_create_account(c);
        if account.num_transactions < u32::MAX {
            account.num_transactions = account.num_transactions + 1;
        }
        let new_account = match transaction.tx_type {
            TransactionType::Deposit => {
                let amt = transaction.amount.unwrap().units;
                if self.transactions.contains_key(&transaction.tx_id) {
                    account
                } else {
                    match try_shift(account, amt, 1, 0) {
                        Some(a) => {
                            let stored = Transaction { status: TransactionStatus::OK, ..transaction };
                            let _ = self.record_deposit(stored);
                            a
                        },
                        None => account,
                    }
                }
            },
            TransactionType::Withdrawal => {
                let amt = transaction.amount.unwrap().units;
                if account.funds_available.units >= amt {
                    match try_shift(account, amt, -1, 0) {
                        Some(a) => a,
                        None => account,
                    }
                } else {
                    account
                }
            },
            TransactionType::Dispute => {
                self.settle(
                    account,
                    &transaction,
                    TransactionStatus::OK,
                    TransactionStatus::Disputed,
                    -1,
                    1,
                ).0
            },
            TransactionType::Resolve => {
                self.settle(
                    account,
                    &transaction,
                    TransactionStatus::Disputed,
                    TransactionStatus::OK,
                    1,
                    -1,
                ).0
            },
            TransactionType::Chargeback => {
                let (a, applied) = self.settle(
                    account,
                    &transaction,
                    TransactionStatus::Disputed,
                    TransactionStatus::Chargedback,
                    1,
                    -1,
                );
                if applied {
                    Account { locked: true, ..a }
                } else {
                    a
                }
            },
        };
        assert(new_account.client_id == c && new_account.balanced());
        let ghost before = self.state();
        self.accounts.insert(c, new_account);
        proof {
            let s = self.state();
            assert(before.accounts.contains_key(c));
            assert(s.accounts.dom() == before.accounts.dom());
            assert forall|k: ClientId| #[trigger]
                s.accounts.contains_key(k) implies s.accounts[k].client_id == k
                    && s.accounts[k].balanced() by {
                if k != c {
                    assert(s.accounts[k] == before.accounts[k]);
                }
            }
        }
    }

    /// Applies the transactions one after another, in order.
    pub fn process_all(&mut self, transactions: &Vec<Transaction>)
        requires
            old(self).wf(),
            forall|i: int| 0 <= i < transactions@.len() ==> (#[trigger] transactions@[i]).well_formed(),
        ensures
            final(self).wf(),
            final(self).state() == run(old(self).state(), transactions@),
    {
        let ghost s0 = self.state();
        let mut i: usize = 0;
        while i < transactions.len()
            invariant
                self.wf(),
                i <= transactions@.len(),
                self.state() == run(s0, transactions@.take(i as int)),
                forall|j: int| 0 <= j < transactions@.len() ==> (#[trigger] transactions@[j]).well_formed(),
            decreases transactions@.len() - i,
        {
            proof {
                assert(transactions@.take(i + 1).drop_last() == transactions@.take(i as int));
            }
            self.process_transaction(transactions[i]);
            i = i + 1;
        }
        assert(transactions@.take(i as int) == transactions@);
    }

    /// Every account, in the order the accounts were opened.
    pub fn accounts(&self) -> (r: Vec<Account>)
        requires
            self.wf(),
        ensures
            r@ == self.state().clients.map_values(|c: ClientId| self.state().accounts[c]),
    {
        let mut r: Vec<Account> = Vec::new();
        let mut i: usize = 0;
        while i < self.clients.len()
            invariant
                self.wf(),
                i <= self.clients@.len(),
                r@ == self.clients@.take(i as int).map_values(|c: ClientId| self.accounts@[c]),
            decreases self.clients@.len() - i,
        {
            let c = self.clients[i];
            assert(self.clients@[i as int] == c);
            assert(self.state().clients.contains(c));
            assert(self.state().accounts.contains_key(c));
            match self.accounts.get(&c) {
                Some(a) => r.push(*a),
                None => {},
            }
            assert(r@ =~= self.clients@.take(i + 1).map_values(|c: ClientId| self.accounts@[c]));
            i = i + 1;
        }
        assert(self.clients@.take(i as int) == self.clients@);
        r
    }
}

} // verus!
