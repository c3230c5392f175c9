use payments_engine::accounts::{Account, AccountError};
use payments_engine::amount::Amount;
use payments_engine::transactions::{Transaction, TransactionCommand, TransactionKind};

fn deposit(client: u16, amount: i64) -> Transaction {
    let amount = Amount::from(amount);
    Transaction {
        tx: 1,
        client,
        kind: TransactionKind::Deposit { amount },
        amount,
    }
}

/// An unlocked account of client 1 with the given balances.
fn account_with(available: i64, held: i64) -> Account {
    let acc = Account::new(deposit(1, 0)).unwrap();
    let acc = acc.apply(deposit(1, available + held)).unwrap();
    let acc = acc
        .apply(Transaction {
            tx: 1,
            client: 1,
            kind: TransactionKind::Dispute,
            amount: Amount::from(held),
        })
        .unwrap();
    assert_eq!(acc.available(), Amount::from(available));
    assert_eq!(acc.held(), Amount::from(held));
    assert!(!acc.is_locked());
    acc
}

/// A locked account of client 1 with the given available funds.
fn locked_account_with(available: i64) -> Account {
    let acc = Account::new(deposit(1, available)).unwrap();
    let acc = acc
        .apply(Transaction {
            tx: 1,
            client: 1,
            kind: TransactionKind::ChargeBack,
            amount: Amount::from(0),
        })
        .unwrap();
    assert_eq!(acc.available(), Amount::from(available));
    assert!(acc.is_locked());
    acc
}

#[test]
fn test_new_account() {
    let transaction = Transaction {
        tx: 1,
        kind: TransactionKind::Withdrawal {
            amount: Amount::from(8),
        },
        client: 1,
        amount: Amount::from(8),
    };

    let acc = Account::new(transaction);
    assert!(acc.is_err());
    assert_eq!(acc.unwrap_err(), AccountError::InvalidInitialTransaction,);
}

#[test]
fn test_apply_deposit() {
    let transaction = Transaction::try_from(TransactionCommand {
        tx: 1,
        kind: TransactionKind::Deposit {
            amount: Amount::from(8),
        },
        client: 1,
    })
    .unwrap();
    let acc = Account::new(transaction).unwrap();
    let amount = Amount::from(7);
    let acc = acc
        .apply(Transaction {
            client: acc.client(),
            tx: 1,
            kind: TransactionKind::Deposit { amount },
            amount,
        })
        .unwrap();
    assert_eq!(acc.available(), Amount::from(15));
}

#[test]
fn test_apply_withdrawal() {
    let acc = account_with(8, 0);
    let amount = Amount::from(7);
    let acc = acc
        .apply(Transaction {
            tx: 1,
            client: acc.client(),
            kind: TransactionKind::Withdrawal { amount },
            amount,
        })
        .unwrap();
    assert_eq!(acc.available(), Amount::from(1));
}

#[test]
fn test_apply_withdrawal_insufficient_funds() {
    let acc = account_with(8, 0);
    let amount = Amount::from(10);
    let res = acc.apply(Transaction {
        tx: 1,
        client: acc.client(),
        kind: TransactionKind::Withdrawal { amount },
        amount,
    });
    assert!(res.is_err());
    assert_eq!(res.unwrap_err(), AccountError::InsufficientFunds);
    assert_eq!(acc.available(), Amount::from(8));
}

#[test]
fn test_apply_dispute() {
    let acc = account_with(8, 0);
    let amount = Amount::from(7);
    let acc = acc
        .apply(Transaction {
            tx: 1,
            client: acc.client(),
            kind: TransactionKind::Dispute,
            amount,
        })
        .unwrap();
    assert_eq!(acc.available(), Amount::from(1));
    assert_eq!(acc.held(), Amount::from(amount));
}

#[test]
fn test_apply_resolve() {
    let acc = account_with(1, 7);
    let amount = Amount::from(7);
    let acc = acc
        .apply(Transaction {
            tx: 1,
            client: acc.client(),
            kind: TransactionKind::Resolve,
            amount,
        })
        .unwrap();
    assert_eq!(acc.available(), Amount::from(8));
    assert_eq!(acc.held(), Amount::from(0));
}

#[test]
fn test_apply_chargeback() {
    let acc = account_with(1, 7);
    let amount = Amount::from(2);
    let acc = acc
        .apply(Transaction {
            tx: 1,
            client: acc.client(),
            kind: TransactionKind::ChargeBack,
            amount,
        })
        .unwrap();
    assert_eq!(acc.available(), Amount::from(1));
    assert_eq!(acc.held(), Amount::from(5));
    assert!(acc.is_locked());
}

#[test]
fn test_apply_locked() {
    let acc = locked_account_with(100);
    let amount = Amount::from(10);
    let res = acc.apply(Transaction {
        tx: 1,
        client: acc.client(),
        kind: TransactionKind::Withdrawal { amount },
        amount,
    });
    assert!(res.is_err());
    assert_eq!(res.unwrap_err(), AccountError::AccountLocked);
}

#[test]
fn test_apply_with_mismatched_client_id() {
    let transaction = Transaction::try_from(TransactionCommand {
        tx: 1,
        kind: TransactionKind::Deposit {
            amount: Amount::from(100),
        },
        client: 1,
    })
    .unwrap();
    let acc = Account::new(transaction).unwrap();
    let amount = Amount::from(10);
    let res = acc.apply(Transaction {
        tx: 1,
        client: acc.client() + 1,
        kind: TransactionKind::Withdrawal { amount },
        amount,
    });
    assert!(res.is_err());
    assert_eq!(res.unwrap_err(), AccountError::InvalidClient);
}
