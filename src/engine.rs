use std::collections::HashMap;

use vstd::prelude::*;

use crate::account::{Account, AccountState, Entry};
use crate::error::Error;
use crate::transaction::{Client, Transaction};

verus! {

broadcast use vstd::std_specs::hash::group_hash_axioms;

/// The outcome of applying `t` to an account in state `a`: the new state, or
/// the first rule that `t` breaks. A lock is checked before anything else.
pub open spec fn apply_spec(a: AccountState, t: Transaction) -> Result<AccountState, Error> {
    if a.locked {
        Err(Error::AccountLocked)
    } else {
        match t {
            Transaction::Deposit { amount, .. } => Ok(
                AccountState { available: a.available + amount, ledger: a.ledger_after(t), ..a },
            ),
            Transaction::Withdrawal { amount, .. } => if a.available < amount {
                Err(Error::InsufficientFunds)
            } else {
                Ok(AccountState { available: a.available - amount, ..a })
            },
            Transaction::Dispute { tx, .. } => if !a.ledger.contains_key(tx.0) {
                Err(Error::TransactionNotFound)
            } else if a.ledger[tx.0].disputed {
                Ok(a)
            } else {
                let e = a.ledger[tx.0];
                Ok(
                    AccountState {
                        available: a.available - e.spec_amount(),
                        held: a.held + e.spec_amount(),
                        ledger: a.ledger.insert(tx.0, Entry { disputed: true, ..e }),
                        ..a
                    },
                )
            },
            Transaction::Resolve { tx, .. } => if !a.ledger.contains_key(tx.0) {
                Err(Error::TransactionNotFound)
            } else if !a.ledger[tx.0].disputed {
                Err(Error::TransactionNotDisputed)
            } else {
                let e = a.ledger[tx.0];
                Ok(
                    AccountState {
                        available: a.available + e.spec_amount(),
                        held: a.held - e.spec_amount(),
                        ledger: a.ledger.insert(tx.0, Entry { disputed: false, ..e }),
                        ..a
                    },
                )
            },
            Transaction::Chargeback { tx, .. } => if !a.ledger.contains_key(tx.0) {
                Err(Error::TransactionNotFound)
            } else if !a.ledger[tx.0].disputed {
                Err(Error::TransactionNotDisputed)
            } else {
                Ok(AccountState { held: a.held - a.ledger[tx.0].spec_amount(), locked: true, ..a })
            },
        }
    }
}

/// The state of `c`'s account in `m`, or a fresh one if `c` has none yet.
pub open spec fn account_or_fresh(m: Map<u16, AccountState>, c: Client) -> AccountState {
    if m.contains_key(c.0) {
        m[c.0]
    } else {
        AccountState::fresh(c)
    }
}

/// Applying `t` to the engine state `m` keeps every balance within the
/// machine representation.
pub open spec fn fits(m: Map<u16, AccountState>, t: Transaction) -> bool {
    match apply_spec(account_or_fresh(m, t.spec_client()), t) {
        Ok(a) => a.in_range(),
        Err(_) => true,
    }
}

/// Applies transactions in order to per-client accounts, created on first
/// reference. Accounts are kept in the order in which they were created.
#[derive(Debug)]
pub struct Engine {
    accounts: Vec<Account>,
    index: HashMap<u16, usize>,
}

impl View for Engine {
    type V = Map<u16, AccountState>;

    closed spec fn view(&self) -> Map<u16, AccountState> {
        Map::new(
            |c: u16| self.index@.contains_key(c),
            |c: u16| self.accounts@[self.index@[c] as int]@,
        )
    }
}

impl Engine {
    /// Each client's account appears once, at the position the index gives,
    /// and every account is well formed.
    pub closed spec fn wf(&self) -> bool {
        &&& forall|c: u16| #[trigger]
            self.index@.contains_key(c) ==> {
                &&& self.index@[c] < self.accounts.len()
                &&& self.accounts@[self.index@[c] as int]@.client.0 == c
            }
        &&& forall|i: int|
            0 <= i < self.accounts.len() ==> {
                &&& self.index@.contains_key(#[trigger] self.accounts@[i]@.client.0)
                &&& self.index@[self.accounts@[i]@.client.0] == i
                &&& self.accounts@[i]@.wf()
            }
    }

    /// An engine with no accounts.
    pub fn new() -> (r: Self)
        ensures
            r.wf(),
            r@ == Map::<u16, AccountState>::empty(),
    {
        let r = Engine { accounts: Vec::new(), index: HashMap::new() };
        proof {
            assert(r@ =~= Map::<u16, AccountState>::empty());
        }
        r
    }

    /// Every account, each client once, in the order of creation.
    pub fn accounts(&self) -> (r: &[Account])
        requires
            self.wf(),
        ensures
            forall|i: int|
                0 <= i < r@.len() ==> #[trigger] self@.contains_key(r@[i]@.client.0)
                    && self@[r@[i]@.client.0] == r@[i]@ && r@[i]@.wf(),
            forall|i: int, j: int|
                0 <= i < j < r@.len() ==> r@[i]@.client != r@[j]@.client,
            forall|c: u16|
                #[trigger] self@.contains_key(c) ==> exists|i: int|
                    0 <= i < r@.len() && r@[i]@.client.0 == c,
    {
        proof {
            assert forall|c: u16| #[trigger] self@.contains_key(c) implies exists|i: int|
                0 <= i < self.accounts@.len() && self.accounts@[i]@.client.0 == c by {
                let i = self.index@[c] as int;
                assert(self.index@.contains_key(c));
                assert(self.accounts@[i]@.client.0 == c);
            }
            assert forall|i: int, j: int|
                0 <= i < j < self.accounts@.len() implies self.accounts@[i]@.client
                != self.accounts@[j]@.client by {
                let ci = self.accounts@[i]@.client.0;
                let cj = self.accounts@[j]@.client.0;
                assert(self.index@[ci] == i);
                assert(self.index@[cj] == j);
            }
        }
        self.accounts.as_slice()
    }

    /// The account of `client`, if it has been referenced.
    pub fn account(&self, client: Client) -> (r: Option<&Account>)
        requires
            self.wf(),
        ensures
            match r {
                Some(a) => self@.contains_key(client.0) && a@ == self@[client.0] && a@.wf(),
                None => !self@.contains_key(client.0),
            },
    {
        match self.index.get(&client.0) {
            Some(i) => Some(&self.accounts[*i]),
            None => None,
        }
    }

    /// Whether applying `transaction` keeps every balance within the machine
    /// representation, which `apply` asks of its caller.
    pub fn within_limits(&self, transaction: Transaction) -> (r: bool)
        requires
            self.wf(),
        ensures
            r == fits(self@, transaction),
    {
        let client = transaction.client();
        let account = match self.index.get(&client.0) {
            Some(i) => &self.accounts[*i],
            None => {
                // a new account starts at zero, so one transaction cannot leave the range
                return true;
            },
        };
        proof {
            assert(self@.contains_key(client.0));
        }
        if account.is_locked() {
            return true;
        }
        match transaction {
            Transaction::Deposit { amount, .. } => shift_fits(account, amount as i128, 0),
            Transaction::Withdrawal { amount, .. } => {
                if account.available() < amount as i128 {
                    true
                } else {
                    shift_fits(account, 0 - amount as i128, 0)
                }
            },
            Transaction::Dispute { tx, .. } => match account.find_transaction(tx) {
                Some(entry) => if entry.disputed {
                    true
                } else {
                    shift_fits(account, 0 - entry.amount() as i128, entry.amount() as i128)
                },
                None => true,
            },
            Transaction::Resolve { tx, .. } => match account.find_transaction(tx) {
                Some(entry) => if entry.disputed {
                    shift_fits(account, entry.amount() as i128, 0 - entry.amount() as i128)
                } else {
                    true
                },
                None => true,
            },
            Transaction::Chargeback { tx, .. } => match account.find_transaction(tx) {
                Some(entry) => if entry.disputed {
                    shift_fits(account, 0, 0 - entry.amount() as i128)
                } else {
                    true
                },
                None => true,
            },
        }
    }

    /// The position of `client`'s account, created empty if it has none.
    fn get_or_create_account(&mut self, client: Client) -> (i: usize)
        requires
            old(self).wf(),
        ensures
            final(self).wf(),
            final(self)@ == old(self)@.insert(client.0, account_or_fresh(old(self)@, client)),
            i < final(self).accounts.len(),
            final(self).index@.contains_key(client.0),
            final(self).index@[client.0] == i,
    {
        match self.index.get(&client.0) {
            Some(i) => {
                let i = *i;
                proof {
                    assert(self@ =~= old(self)@.insert(client.0, account_or_fresh(old(self)@, client)));
                }
                i
            },
            None => {
                let i = self.accounts.len();
                self.accounts.push(Account::with_client(client));
                self.index.insert(client.0, i);
                proof {
                    assert forall|c: u16| #[trigger] old(self).index@.contains_key(c) implies
                        self.accounts@[self.index@[c] as int] == old(self).accounts@[old(self).index@[c] as int] by {
                        assert(c != client.0);
                    }
                    assert forall|j: int| 0 <= j < self.accounts.len() implies {
                        &&& self.index@.contains_key(#[trigger] self.accounts@[j]@.client.0)
                        &&& self.index@[self.accounts@[j]@.client.0] == j
                        &&& self.accounts@[j]@.wf()
                    } by {
                        if j < i {
                            assert(old(self).accounts@[j] == self.accounts@[j]);
                            assert(old(self).index@.contains_key(old(self).accounts@[j]@.client.0));
                        } else {
                            assert(self.accounts@[j]@.ledger =~= Map::<u32, Entry>::empty());
                        }
                    }
                    assert(self@ =~= old(self)@.insert(client.0, account_or_fresh(old(self)@, client)));
                }
                i
            },
        }
    }

    /// Applies one transaction to its client's account, creating the account
    /// first if the client is new (also when the transaction then fails).
    /// A failed transaction changes no balance, flag or ledger entry.
    pub fn apply(&mut self, transaction: Transaction) -> (r: Result<(), Error>)
        requires
            old(self).wf(),
            fits(old(self)@, transaction),
        ensures
            final(self).wf(),
            ({
                let c = transaction.spec_client();
                let a = account_or_fresh(old(self)@, c);
                match apply_spec(a, transaction) {
                    Ok(next) => r is Ok && final(self)@ == old(self)@.insert(c.0, next),
                    Err(e) => r == Err::<(), Error>(e) && final(self)@ == old(self)@.insert(c.0, a),
                }
            }),
    {
        let client = transaction.client();
        let i = self.get_or_create_account(client);
        let ghost mid = *self;
        proof {
            assert(mid@.contains_key(client.0));
            assert(mid@[client.0] == mid.accounts@[i as int]@);
            assert(mid.accounts@[i as int]@ == account_or_fresh(old(self)@, client));
        }
        let r = apply_to_account(&mut self.accounts[i], transaction);
        proof {
            assert(self.accounts@ == mid.accounts@.update(i as int, self.accounts@[i as int]));
            assert forall|j: int| 0 <= j < self.accounts.len() implies {
                &&& self.index@.contains_key(#[trigger] self.accounts@[j]@.client.0)
                &&& self.index@[self.accounts@[j]@.client.0] == j
                &&& self.accounts@[j]@.wf()
            } by {
                if j != i {
                    assert(mid.accounts@[j] == self.accounts@[j]);
                }
            }
            assert forall|c: u16| #[trigger] self.index@.contains_key(c) implies {
                &&& self.index@[c] < self.accounts.len()
                &&& self.accounts@[self.index@[c] as int]@.client.0 == c
            } by {
                assert(mid.index@.contains_key(c));
            }
            assert(self@ =~= mid@.insert(client.0, self.accounts@[i as int]@));
        }
        r
    }
}

impl Default for Engine {
    fn default() -> (r: Self)
        ensures
            r.wf(),
            r@ == Map::<u16, AccountState>::empty(),
    {
        Engine::new()
    }
}

/// Whether `account`'s balances, moved by `da` and `dh`, stay in range.
fn shift_fits(account: &Account, da: i128, dh: i128) -> (r: bool)
    ensures
        r == (AccountState {
            available: account@.available + da,
            held: account@.held + dh,
            ..account@
        }).in_range(),
{
    let available = match account.available().checked_add(da) {
        Some(v) => v,
        None => return false,
    };
    let held = match account.held().checked_add(dh) {
        Some(v) => v,
        None => return false,
    };
    available.checked_add(held).is_some()
}

/// Applies `transaction` to `account` under the rules of `apply_spec`,
/// changing nothing when a rule rejects it.
fn apply_to_account(account: &mut Account, transaction: Transaction) -> (r: Result<(), Error>)
    requires
        old(account)@.wf(),
        transaction.spec_client() == old(account)@.client,
        match apply_spec(old(account)@, transaction) {
            Ok(next) => next.in_range(),
            Err(_) => true,
        },
    ensures
        final(account)@.wf(),
        match apply_spec(old(account)@, transaction) {
            Ok(next) => r is Ok && final(account)@ == next,
            Err(e) => r == Err::<(), Error>(e) && final(account)@ == old(account)@,
        },
{
    if account.is_locked() {
        return Err(Error::AccountLocked);
    }
    match transaction {
        Transaction::Deposit { amount, .. } => {
            let available = account.available() + amount as i128;
            account.set_balances(available, account.held());
            account.push_transaction(transaction);
        },
        Transaction::Withdrawal { amount, .. } => {
            if account.available() < amount as i128 {
                return Err(Error::InsufficientFunds);
            }
            let available = account.available() - amount as i128;
            account.set_balances(available, account.held());
        },
        Transaction::Dispute { tx, .. } => {
            let entry = match account.find_transaction(tx) {
                Some(entry) => entry,
                None => return Err(Error::TransactionNotFound),
            };
            // disputing a deposit that is already under dispute changes nothing
            if !entry.disputed {
                let amount = entry.amount() as i128;
                let available = account.available() - amount;
                let held = account.held() + amount;
                account.set_balances(available, held);
                account.set_disputed(tx, true);
            }
        },
        Transaction::Resolve { tx, .. } => {
            let entry = match account.find_transaction(tx) {
                Some(entry) => entry,
                None => return Err(Error::TransactionNotFound),
            };
            if !entry.disputed {
                return Err(Error::TransactionNotDisputed);
            }
            let amount = entry.amount() as i128;
            let available = account.available() + amount;
            let held = account.held() - amount;
            account.set_balances(available, held);
            account.set_disputed(tx, false);
        },
        Transaction::Chargeback { tx, .. } => {
            let entry = match account.find_transaction(tx) {
                Some(entry) => entry,
                None => return Err(Error::TransactionNotFound),
            };
            if !entry.disputed {
                return Err(Error::TransactionNotDisputed);
            }
            let held = account.held() - entry.amount() as i128;
            account.set_balances(account.available(), held);
            account.lock();
        },
    }
    proof {
        assert(account@ == apply_spec(old(account)@, transaction)->Ok_0);
    }
    Ok(())
}

} // verus!
