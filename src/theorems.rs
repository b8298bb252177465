//! Facts about the transaction rules, stated over `apply_spec` and proved.
use vstd::prelude::*;

use crate::account::{AccountState, Entry};
use crate::engine::apply_spec;
use crate::error::Error;
use crate::transaction::{Client, Transaction, Tx};

verus! {

/// The state after `t`, or the state as it was when `t` is rejected: the
/// ingestion loop skips a rejected record and goes on.
pub open spec fn apply_or_keep(a: AccountState, t: Transaction) -> AccountState {
    match apply_spec(a, t) {
        Ok(next) => next,
        Err(_) => a,
    }
}

/// The state after `ts`, applied in order.
pub open spec fn replay(a: AccountState, ts: Seq<Transaction>) -> AccountState
    decreases ts.len(),
{
    if ts.len() == 0 {
        a
    } else {
        apply_or_keep(replay(a, ts.drop_last()), ts.last())
    }
}

/// The sum of the amounts of the deposits in `ts`.
pub open spec fn deposit_sum(ts: Seq<Transaction>) -> int
    decreases ts.len(),
{
    if ts.len() == 0 {
        0
    } else {
        deposit_sum(ts.drop_last()) + match ts.last() {
            Transaction::Deposit { amount, .. } => amount as int,
            _ => 0,
        }
    }
}

/// After any sequence of deposits to a new account, the available funds are
/// the sum of the deposited amounts and nothing is held.
pub proof fn deposits_add_up(c: Client, ts: Seq<Transaction>)
    requires
        forall|i: int| 0 <= i < ts.len() ==> #[trigger] ts[i] is Deposit,
    ensures
        replay(AccountState::fresh(c), ts).available == deposit_sum(ts),
        replay(AccountState::fresh(c), ts).held == 0,
        !replay(AccountState::fresh(c), ts).locked,
    decreases ts.len(),
{
    if ts.len() > 0 {
        let init = ts.drop_last();
        assert forall|i: int| 0 <= i < init.len() implies #[trigger] init[i] is Deposit by {
            assert(init[i] == ts[i]);
        }
        deposits_add_up(c, init);
        assert(ts[ts.len() - 1] is Deposit);
    }
}

/// A withdrawal of more than the available funds fails with
/// `InsufficientFunds`; one that succeeds takes exactly its amount and
/// leaves the available funds non-negative.
pub proof fn withdrawal_never_overdraws(a: AccountState, c: Client, tx: Tx, amount: u64)
    ensures
        !a.locked && amount > a.available ==> apply_spec(
            a,
            Transaction::Withdrawal { client: c, tx, amount },
        ) == Err::<AccountState, Error>(Error::InsufficientFunds),
        apply_spec(a, Transaction::Withdrawal { client: c, tx, amount }) matches Ok(next) ==> {
            &&& next.available == a.available - amount
            &&& next.available >= 0
            &&& next == (AccountState { available: next.available, ..a })
        },
{
}

/// Disputing an undisputed deposit moves its amount from available to held
/// and leaves the total as it was; disputing it again changes nothing.
pub proof fn dispute_moves_to_held(a: AccountState, c: Client, tx: Tx)
    requires
        !a.locked,
        a.ledger.contains_key(tx.0),
        !a.ledger[tx.0].disputed,
    ensures
        apply_spec(a, Transaction::Dispute { client: c, tx }) matches Ok(next) && {
            &&& next.available == a.available - a.ledger[tx.0].spec_amount()
            &&& next.held == a.held + a.ledger[tx.0].spec_amount()
            &&& next.total() == a.total()
            &&& next.ledger[tx.0].disputed
            &&& apply_spec(next, Transaction::Dispute { client: c, tx }) == Ok::<
                AccountState,
                Error,
            >(next)
        },
{
}

/// A resolve undoes the dispute before it: the account is back to the state
/// before the dispute. (A dispute of a deposit that is already disputed
/// changes nothing, so the resolve after it is left out.)
pub proof fn resolve_undoes_dispute(a: AccountState, c: Client, tx: Tx)
    requires
        !(a.ledger.contains_key(tx.0) && a.ledger[tx.0].disputed),
    ensures
        apply_or_keep(
            apply_or_keep(a, Transaction::Dispute { client: c, tx }),
            Transaction::Resolve { client: c, tx },
        ) == a,
{
    if !a.locked && a.ledger.contains_key(tx.0) {
        let e = a.ledger[tx.0];
        let next = apply_or_keep(a, Transaction::Dispute { client: c, tx });
        assert(next.ledger[tx.0] == Entry { disputed: true, ..e });
        let back = apply_or_keep(next, Transaction::Resolve { client: c, tx });
        assert(back.ledger =~= a.ledger);
    }
}

/// A chargeback takes the disputed amount out of held funds, not available
/// ones, and locks the account: every later transaction of any kind fails
/// with `AccountLocked` and changes nothing.
pub proof fn chargeback_locks(a: AccountState, c: Client, tx: Tx, later: Seq<Transaction>)
    requires
        !a.locked,
        a.ledger.contains_key(tx.0),
        a.ledger[tx.0].disputed,
    ensures
        apply_spec(a, Transaction::Chargeback { client: c, tx }) matches Ok(next) && {
            &&& next.held == a.held - a.ledger[tx.0].spec_amount()
            &&& next.available == a.available
            &&& next.locked
            &&& forall|t: Transaction|
                #[trigger] apply_spec(next, t) == Err::<AccountState, Error>(Error::AccountLocked)
            &&& replay(next, later) == next
        },
{
    let next = apply_or_keep(a, Transaction::Chargeback { client: c, tx });
    locked_is_final(next, later);
}

/// A locked account stays as it is, whatever follows.
pub proof fn locked_is_final(a: AccountState, later: Seq<Transaction>)
    requires
        a.locked,
    ensures
        replay(a, later) == a,
    decreases later.len(),
{
    if later.len() > 0 {
        locked_is_final(a, later.drop_last());
    }
}

/// Resolve and chargeback fail with `TransactionNotFound` on an id with no
/// recorded deposit, and with `TransactionNotDisputed` on a deposit that is
/// not under dispute.
pub proof fn settle_needs_dispute(a: AccountState, c: Client, tx: Tx)
    requires
        !a.locked,
    ensures
        !a.ledger.contains_key(tx.0) ==> {
            &&& apply_spec(a, Transaction::Resolve { client: c, tx }) == Err::<AccountState, Error>(
                Error::TransactionNotFound,
            )
            &&& apply_spec(a, Transaction::Chargeback { client: c, tx }) == Err::<
                AccountState,
                Error,
            >(Error::TransactionNotFound)
        },
        a.ledger.contains_key(tx.0) && !a.ledger[tx.0].disputed ==> {
            &&& apply_spec(a, Transaction::Resolve { client: c, tx }) == Err::<AccountState, Error>(
                Error::TransactionNotDisputed,
            )
            &&& apply_spec(a, Transaction::Chargeback { client: c, tx }) == Err::<
                AccountState,
                Error,
            >(Error::TransactionNotDisputed)
        },
{
}

/// The total changes only by a deposit (up by its amount), a withdrawal (down
/// by its amount) and a chargeback (down by the disputed amount); only a
/// deposit adds to the ledger, and nothing clears a lock. A well-formed
/// account stays well formed when the new balances fit.
pub proof fn total_is_conserved(a: AccountState, t: Transaction)
    requires
        a.wf(),
    ensures
        apply_spec(a, t) matches Ok(next) ==> {
            &&& next.total() == a.total() + match t {
                Transaction::Deposit { amount, .. } => amount as int,
                Transaction::Withdrawal { amount, .. } => -amount,
                Transaction::Chargeback { tx, .. } => -a.ledger[tx.0].spec_amount(),
                _ => 0,
            }
            &&& !(t is Deposit) ==> next.ledger.dom() == a.ledger.dom()
            &&& a.ledger.dom().subset_of(next.ledger.dom())
            &&& next.in_range() ==> next.wf()
        },
        a.locked ==> apply_spec(a, t) == Err::<AccountState, Error>(Error::AccountLocked),
{
    if let Ok(next) = apply_spec(a, t) {
        match t {
            Transaction::Dispute { tx, .. } => {
                assert(next.ledger.dom() =~= a.ledger.dom());
            },
            Transaction::Resolve { tx, .. } => {
                assert(next.ledger.dom() =~= a.ledger.dom());
            },
            _ => {},
        }
    }
}

} // verus!
