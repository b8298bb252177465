use hermes::{Client, Engine, Error, Transaction, Tx};

/// One unit of currency in ten-thousandths.
const UNIT: u64 = 10_000;

fn deposit(client: Client, tx: u32, amount: u64) -> Transaction {
    Transaction::Deposit { client, tx: Tx::from(tx), amount }
}

fn withdrawal(client: Client, tx: u32, amount: u64) -> Transaction {
    Transaction::Withdrawal { client, tx: Tx::from(tx), amount }
}

fn dispute(client: Client, tx: u32) -> Transaction {
    Transaction::Dispute { client, tx: Tx::from(tx) }
}

fn resolve(client: Client, tx: u32) -> Transaction {
    Transaction::Resolve { client, tx: Tx::from(tx) }
}

fn chargeback(client: Client, tx: u32) -> Transaction {
    Transaction::Chargeback { client, tx: Tx::from(tx) }
}

fn balances(engine: &Engine, client: Client) -> (i128, i128, i128, bool) {
    let account = engine.account(client).unwrap();
    (account.available(), account.held(), account.total(), account.is_locked())
}

#[test]
fn test_engine_deposit() {
    let mut engine = Engine::new();
    let client = Client::from(1);

    let _ = engine.apply(deposit(client, 1, UNIT));
    assert_eq!(balances(&engine, client), (10_000, 0, 10_000, false));

    let _ = engine.apply(deposit(client, 2, 15_000));
    assert_eq!(balances(&engine, client), (25_000, 0, 25_000, false));
}

#[test]
fn test_engine_withdraw() {
    let mut engine = Engine::new();
    let client = Client::from(1);

    let _ = engine.apply(deposit(client, 1, UNIT));
    assert_eq!(balances(&engine, client), (10_000, 0, 10_000, false));

    let _ = engine.apply(withdrawal(client, 2, 2 * UNIT));
    assert_eq!(balances(&engine, client), (10_000, 0, 10_000, false));
}

#[test]
fn test_engine_dispute() {
    let mut engine = Engine::new();
    let client = Client::from(1);

    let _ = engine.apply(deposit(client, 1, UNIT));
    assert_eq!(balances(&engine, client), (10_000, 0, 10_000, false));

    let _ = engine.apply(dispute(client, 1));
    assert_eq!(balances(&engine, client), (0, 10_000, 10_000, false));
}

#[test]
fn test_engine_resolve() {
    let mut engine = Engine::new();
    let client = Client::from(1);

    let _ = engine.apply(deposit(client, 1, UNIT));
    let _ = engine.apply(deposit(client, 2, 2 * UNIT));
    assert_eq!(balances(&engine, client), (30_000, 0, 30_000, false));

    let _ = engine.apply(dispute(client, 1));
    assert_eq!(balances(&engine, client), (20_000, 10_000, 30_000, false));

    let _ = engine.apply(resolve(client, 1));
    assert_eq!(balances(&engine, client), (30_000, 0, 30_000, false));
}

#[test]
fn test_engine_chargeback() {
    let mut engine = Engine::new();
    let client = Client::from(1);

    let _ = engine.apply(deposit(client, 1, UNIT));
    assert_eq!(balances(&engine, client), (10_000, 0, 10_000, false));

    let _ = engine.apply(dispute(client, 1));
    assert_eq!(balances(&engine, client), (0, 10_000, 10_000, false));

    let _ = engine.apply(chargeback(client, 1));
    assert_eq!(balances(&engine, client), (0, 0, 0, true));
}

#[test]
fn deposits_sum_up_with_nothing_held() {
    let mut engine = Engine::new();
    let client = Client::from(7);
    for (tx, amount) in [(1u32, 1u64), (2, 25_000), (3, 0), (4, 9_999)] {
        assert_eq!(engine.apply(deposit(client, tx, amount)), Ok(()));
    }
    assert_eq!(balances(&engine, client), (35_000, 0, 35_000, false));
}

#[test]
fn withdrawal_over_available_fails_and_changes_nothing() {
    let mut engine = Engine::new();
    let client = Client::from(1);
    assert_eq!(engine.apply(deposit(client, 1, UNIT)), Ok(()));
    assert_eq!(engine.apply(withdrawal(client, 2, 2 * UNIT)), Err(Error::InsufficientFunds));
    assert_eq!(balances(&engine, client), (10_000, 0, 10_000, false));
    assert_eq!(engine.apply(withdrawal(client, 3, UNIT)), Ok(()));
    assert_eq!(balances(&engine, client), (0, 0, 0, false));
}

#[test]
fn withdrawal_from_unknown_client_creates_empty_account() {
    let mut engine = Engine::new();
    let client = Client::from(3);
    assert_eq!(engine.apply(withdrawal(client, 1, 1)), Err(Error::InsufficientFunds));
    assert_eq!(balances(&engine, client), (0, 0, 0, false));
    assert_eq!(engine.accounts().len(), 1);
}

#[test]
fn second_dispute_is_a_no_op() {
    let mut engine = Engine::new();
    let client = Client::from(1);
    let _ = engine.apply(deposit(client, 1, 3 * UNIT));
    assert_eq!(engine.apply(dispute(client, 1)), Ok(()));
    assert_eq!(balances(&engine, client), (0, 30_000, 30_000, false));
    assert_eq!(engine.apply(dispute(client, 1)), Ok(()));
    assert_eq!(balances(&engine, client), (0, 30_000, 30_000, false));
}

#[test]
fn resolve_restores_state_before_dispute() {
    let mut engine = Engine::new();
    let client = Client::from(1);
    let _ = engine.apply(deposit(client, 1, 12_345));
    let _ = engine.apply(withdrawal(client, 2, 345));
    let before = balances(&engine, client);
    assert_eq!(engine.apply(dispute(client, 1)), Ok(()));
    assert_eq!(balances(&engine, client), (-345, 12_345, 12_000, false));
    assert_eq!(engine.apply(resolve(client, 1)), Ok(()));
    assert_eq!(balances(&engine, client), before);
    let entry = engine.account(client).unwrap().find_transaction(Tx::from(1)).unwrap();
    assert!(!entry.disputed);
}

#[test]
fn chargeback_locks_against_every_kind() {
    let mut engine = Engine::new();
    let client = Client::from(1);
    let _ = engine.apply(deposit(client, 1, UNIT));
    let _ = engine.apply(deposit(client, 2, 5_000));
    let _ = engine.apply(dispute(client, 1));
    assert_eq!(engine.apply(chargeback(client, 1)), Ok(()));
    assert_eq!(balances(&engine, client), (5_000, 0, 5_000, true));
    for t in [
        deposit(client, 3, UNIT),
        withdrawal(client, 4, 1),
        dispute(client, 2),
        resolve(client, 1),
        chargeback(client, 1),
    ] {
        assert_eq!(engine.apply(t), Err(Error::AccountLocked));
    }
    assert_eq!(balances(&engine, client), (5_000, 0, 5_000, true));
}

#[test]
fn settling_needs_a_disputed_deposit() {
    let mut engine = Engine::new();
    let client = Client::from(1);
    assert_eq!(engine.apply(resolve(client, 9)), Err(Error::TransactionNotFound));
    assert_eq!(engine.apply(chargeback(client, 9)), Err(Error::TransactionNotFound));
    assert_eq!(engine.apply(dispute(client, 9)), Err(Error::TransactionNotFound));
    let _ = engine.apply(deposit(client, 1, UNIT));
    assert_eq!(engine.apply(resolve(client, 1)), Err(Error::TransactionNotDisputed));
    assert_eq!(engine.apply(chargeback(client, 1)), Err(Error::TransactionNotDisputed));
    assert_eq!(balances(&engine, client), (10_000, 0, 10_000, false));
}

#[test]
fn withdrawals_cannot_be_disputed() {
    let mut engine = Engine::new();
    let client = Client::from(1);
    let _ = engine.apply(deposit(client, 1, UNIT));
    let _ = engine.apply(withdrawal(client, 2, 5_000));
    assert_eq!(engine.apply(dispute(client, 2)), Err(Error::TransactionNotFound));
}

#[test]
fn ledger_lookup_ignores_insertion_order() {
    let mut engine = Engine::new();
    let client = Client::from(1);
    let _ = engine.apply(deposit(client, 30, 3));
    let _ = engine.apply(deposit(client, 10, 1));
    let _ = engine.apply(deposit(client, 20, 2));
    let account = engine.account(client).unwrap();
    for (tx, amount) in [(10u32, 1u64), (20, 2), (30, 3)] {
        let entry = account.find_transaction(Tx::from(tx)).unwrap();
        assert_eq!(entry.tx, Tx::from(tx));
        assert_eq!(entry.amount(), amount);
    }
    assert!(account.find_transaction(Tx::from(40)).is_none());
}

#[test]
fn duplicate_deposit_id_keeps_first_entry() {
    let mut engine = Engine::new();
    let client = Client::from(1);
    let _ = engine.apply(deposit(client, 1, UNIT));
    let _ = engine.apply(deposit(client, 1, 2 * UNIT));
    assert_eq!(balances(&engine, client), (30_000, 0, 30_000, false));
    let _ = engine.apply(dispute(client, 1));
    assert_eq!(balances(&engine, client), (20_000, 10_000, 30_000, false));
}

#[test]
fn clients_are_independent() {
    let mut engine = Engine::new();
    let a = Client::from(1);
    let b = Client::from(2);
    let _ = engine.apply(deposit(a, 1, UNIT));
    let _ = engine.apply(deposit(b, 2, 2 * UNIT));
    let _ = engine.apply(dispute(a, 1));
    let _ = engine.apply(chargeback(a, 1));
    assert_eq!(balances(&engine, a), (0, 0, 0, true));
    assert_eq!(balances(&engine, b), (20_000, 0, 20_000, false));
    let ids: Vec<u16> = engine.accounts().iter().map(|acc| acc.id()).collect();
    assert_eq!(ids, vec![1, 2]);
    assert!(engine.account(Client::from(3)).is_none());
}

#[test]
fn ordinary_transactions_are_within_limits() {
    let mut engine = Engine::new();
    let client = Client::from(1);
    assert!(engine.within_limits(deposit(client, 1, u64::MAX)));
    assert_eq!(engine.apply(deposit(client, 1, u64::MAX)), Ok(()));
    assert!(engine.within_limits(dispute(client, 1)));
    assert!(engine.within_limits(withdrawal(client, 2, u64::MAX)));
    assert!(engine.within_limits(chargeback(client, 5)));
    assert_eq!(balances(&engine, client), (u64::MAX as i128, 0, u64::MAX as i128, false));
}

#[test]
fn error_messages() {
    assert_eq!(Error::InsufficientFunds.message(), "insufficient funds");
    assert_eq!(Error::AccountLocked.message(), "account locked");
    assert_eq!(Error::TransactionNotFound.message(), "transaction not found");
    assert_eq!(Error::TransactionNotDisputed.message(), "transaction not under dispute");
}

#[test]
fn default_engine_is_empty() {
    let engine = Engine::default();
    assert!(engine.accounts().is_empty());
    assert!(engine.account(Client::from(0)).is_none());
}

#[test]
fn scenario_chargeback_then_anything_is_locked() {
    let mut engine = Engine::new();
    let client = Client::from(1);
    let _ = engine.apply(deposit(client, 1, UNIT));
    let _ = engine.apply(dispute(client, 1));
    let _ = engine.apply(chargeback(client, 1));
    assert_eq!(balances(&engine, client), (0, 0, 0, true));
    assert_eq!(engine.apply(deposit(client, 2, UNIT)), Err(Error::AccountLocked));
    assert_eq!(engine.apply(withdrawal(client, 3, 0)), Err(Error::AccountLocked));
}
