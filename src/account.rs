use std::collections::HashMap;

use vstd::prelude::*;

use crate::transaction::{Client, Transaction, Tx};

verus! {

broadcast use vstd::std_specs::hash::group_hash_axioms;

/// A deposit kept in an account's ledger, with its dispute status. The whole
/// transaction is kept so that other kinds could be disputed later on.
#[derive(Clone, Copy, Debug)]
pub struct Entry {
    pub tx: Tx,
    pub transaction: Transaction,
    pub disputed: bool,
}

impl Entry {
    /// The amount of the recorded deposit.
    pub open spec fn spec_amount(self) -> u64 {
        match self.transaction {
            Transaction::Deposit { amount, .. } => amount,
            _ => 0,
        }
    }

    /// The amount of the recorded deposit.
    pub fn amount(&self) -> (r: u64)
        ensures
            r == self.spec_amount(),
    {
        match self.transaction {
            Transaction::Deposit { amount, .. } => amount,
            _ => 0,
        }
    }

    /// The entry records, under id `k`, the deposit with that id.
    pub open spec fn records(self, k: u32) -> bool {
        &&& self.tx.0 == k
        &&& self.transaction matches Transaction::Deposit { tx, .. } && tx == self.tx
    }
}

/// The abstract state of an account: balances in ten-thousandths, the lock,
/// and the ledger of deposits keyed by transaction id.
pub ghost struct AccountState {
    pub client: Client,
    pub available: int,
    pub held: int,
    pub locked: bool,
    pub ledger: Map<u32, Entry>,
}

impl AccountState {
    /// A fresh account: no funds, unlocked, empty ledger.
    pub open spec fn fresh(client: Client) -> AccountState {
        AccountState {
            client,
            available: 0,
            held: 0,
            locked: false,
            ledger: Map::empty(),
        }
    }

    pub open spec fn total(self) -> int {
        self.available + self.held
    }

    /// The balances fit the machine representation.
    pub open spec fn in_range(self) -> bool {
        &&& i128::MIN <= self.available <= i128::MAX
        &&& i128::MIN <= self.held <= i128::MAX
        &&& i128::MIN <= self.total() <= i128::MAX
    }

    /// Balances fit, and the ledger holds only deposits of this client, each
    /// under its own transaction id.
    pub open spec fn wf(self) -> bool {
        &&& self.in_range()
        &&& self.ledger.dom().finite()
        &&& forall|k: u32| #[trigger]
            self.ledger.contains_key(k) ==> self.ledger[k].records(k)
    }

    /// The ledger after recording `t`: a new undisputed entry for a deposit
    /// whose id is not yet there; otherwise the ledger as it was.
    pub open spec fn ledger_after(self, t: Transaction) -> Map<u32, Entry> {
        match t {
            Transaction::Deposit { tx, .. } => if self.ledger.contains_key(tx.0) {
                self.ledger
            } else {
                self.ledger.insert(tx.0, Entry { tx, transaction: t, disputed: false })
            },
            _ => self.ledger,
        }
    }
}

/// One client's balances and ledger. Holds state only: the rules that decide
/// what may change live in the engine.
#[derive(Debug)]
pub struct Account {
    client: Client,
    available: i128,
    held: i128,
    locked: bool,
    ledger: HashMap<u32, Entry>,
}

impl View for Account {
    type V = AccountState;

    closed spec fn view(&self) -> AccountState {
        AccountState {
            client: self.client,
            available: self.available as int,
            held: self.held as int,
            locked: self.locked,
            ledger: self.ledger@,
        }
    }
}

impl Account {
    /// An empty, unlocked account for `client`.
    pub fn with_client(client: Client) -> (r: Self)
        ensures
            r@ == AccountState::fresh(client),
    {
        let r = Account {
            client,
            available: 0,
            held: 0,
            locked: false,
            ledger: HashMap::new(),
        };
        proof {
            assert(r.ledger@ =~= Map::<u32, Entry>::empty());
        }
        r
    }

    pub fn id(&self) -> (r: u16)
        ensures
            r == self@.client.0,
    {
        self.client.id()
    }

    /// Funds usable for withdrawals and disputes.
    pub fn available(&self) -> (r: i128)
        ensures
            r == self@.available,
    {
        self.available
    }

    /// Funds frozen by disputes.
    pub fn held(&self) -> (r: i128)
        ensures
            r == self@.held,
    {
        self.held
    }

    /// Available plus held funds.
    pub fn total(&self) -> (r: i128)
        requires
            self@.in_range(),
        ensures
            r == self@.total(),
    {
        self.available + self.held
    }

    /// Whether a chargeback has locked the account.
    pub fn is_locked(&self) -> (r: bool)
        ensures
            r == self@.locked,
    {
        self.locked
    }

    /// The ledger entry of deposit `tx`, if there is one.
    pub fn find_transaction(&self, tx: Tx) -> (r: Option<Entry>)
        ensures
            r == (if self@.ledger.contains_key(tx.0) {
                Some(self@.ledger[tx.0])
            } else {
                None
            }),
    {
        match self.ledger.get(&tx.0) {
            Some(entry) => Some(*entry),
            None => None,
        }
    }

    /// Records `transaction` in the ledger if it is a deposit whose id is not
    /// recorded yet; any other transaction leaves the ledger as it is.
    pub fn push_transaction(&mut self, transaction: Transaction)
        requires
            old(self)@.wf(),
        ensures
            final(self)@ == (AccountState {
                ledger: old(self)@.ledger_after(transaction),
                ..old(self)@
            }),
            final(self)@.wf(),
    {
        match transaction {
            Transaction::Deposit { tx, .. } => {
                if !self.ledger.contains_key(&tx.0) {
                    self.ledger.insert(tx.0, Entry { tx, transaction, disputed: false });
                }
            },
            _ => {},
        }
    }

    /// Replaces both balances.
    pub(crate) fn set_balances(&mut self, available: i128, held: i128)
        requires
            i128::MIN <= available + held <= i128::MAX,
        ensures
            final(self)@ == (AccountState { available: available as int, held: held as int, ..old(self)@ }),
    {
        self.available = available;
        self.held = held;
    }

    /// Sets the dispute flag of the recorded deposit `tx`.
    pub(crate) fn set_disputed(&mut self, tx: Tx, disputed: bool)
        requires
            old(self)@.ledger.contains_key(tx.0),
        ensures
            final(self)@ == (AccountState {
                ledger: old(self)@.ledger.insert(
                    tx.0,
                    Entry { disputed, ..old(self)@.ledger[tx.0] },
                ),
                ..old(self)@
            }),
    {
        let entry = self.ledger.get(&tx.0).unwrap();
        let updated = Entry { disputed, ..*entry };
        self.ledger.insert(tx.0, updated);
    }

    /// Locks the account for good.
    pub(crate) fn lock(&mut self)
        ensures
            final(self)@ == (AccountState { locked: true, ..old(self)@ }),
    {
        self.locked = true;
    }
}

} // verus!
