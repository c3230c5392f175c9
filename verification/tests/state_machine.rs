use payments_engine::amount::Amount;
use payments_engine::transactions::{
    Transaction, TransactionCommand, TransactionError, TransactionKind,
};

fn kinds(amount: Amount) -> Vec<TransactionKind> {
    vec![
        TransactionKind::Deposit { amount },
        TransactionKind::Withdrawal { amount },
        TransactionKind::Dispute,
        TransactionKind::Resolve,
        TransactionKind::ChargeBack,
    ]
}

#[test]
fn try_from_opens_with_a_deposit() {
    let amount = Amount::new(105, 1).unwrap();
    let command = TransactionCommand {
        kind: TransactionKind::Deposit { amount },
        tx: 7,
        client: 3,
    };
    let opened = Transaction::try_from(command).unwrap();
    assert_eq!(
        opened,
        Transaction {
            tx: 7,
            client: 3,
            amount,
            kind: TransactionKind::Deposit { amount },
        }
    );
}

#[test]
fn try_from_opens_with_a_withdrawal() {
    let amount = Amount::from(4);
    let command = TransactionCommand {
        kind: TransactionKind::Withdrawal { amount },
        tx: 8,
        client: 2,
    };
    let opened = Transaction::try_from(command).unwrap();
    assert_eq!(
        opened,
        Transaction {
            tx: 8,
            client: 2,
            amount,
            kind: TransactionKind::Withdrawal { amount },
        }
    );
}

#[test]
fn try_from_refuses_what_is_no_root() {
    for kind in [
        TransactionKind::Dispute,
        TransactionKind::Resolve,
        TransactionKind::ChargeBack,
    ] {
        let res = Transaction::try_from(TransactionCommand {
            kind,
            tx: 1,
            client: 1,
        });
        assert_eq!(res, Err(TransactionError::RootTransactionRequired));
    }
}

#[test]
fn next_follows_the_table() {
    let amount = Amount::from(100);
    for from in kinds(amount) {
        for to in kinds(amount) {
            let stored = Transaction {
                tx: 5,
                client: 9,
                amount,
                kind: from,
            };
            let step = matches!(
                (from, to),
                (TransactionKind::Deposit { .. }, TransactionKind::Dispute)
                    | (TransactionKind::Withdrawal { .. }, TransactionKind::Dispute)
                    | (TransactionKind::Dispute, TransactionKind::Resolve)
                    | (TransactionKind::Dispute, TransactionKind::ChargeBack)
            );
            let expected = if step {
                Ok(Transaction {
                    tx: 5,
                    client: 9,
                    amount,
                    kind: to,
                })
            } else {
                Err(TransactionError::InvalidState { from, to })
            };
            assert_eq!(stored.next(to), expected);
        }
    }
}

#[test]
fn dispute_takes_the_amount_that_the_kind_carries() {
    let stored = Transaction {
        tx: 1,
        client: 1,
        amount: Amount::from(1),
        kind: TransactionKind::Deposit {
            amount: Amount::from(2),
        },
    };
    let disputed = stored.next(TransactionKind::Dispute).unwrap();
    assert_eq!(disputed.amount, Amount::from(2));
    let resolved = disputed.next(TransactionKind::Resolve).unwrap();
    assert_eq!(resolved.amount, Amount::from(2));
    assert_eq!(resolved.kind, TransactionKind::Resolve);
}

#[test]
fn resolve_is_terminal() {
    let amount = Amount::from(100);
    let stored = Transaction {
        tx: 1,
        client: 1,
        amount,
        kind: TransactionKind::Resolve,
    };
    for to in kinds(amount) {
        assert_eq!(
            stored.apply(TransactionCommand {
                kind: to,
                tx: 1,
                client: 1
            }),
            Err(TransactionError::InvalidState {
                from: TransactionKind::Resolve,
                to
            })
        );
    }
}

#[test]
fn number_is_checked_before_client_and_client_before_the_table() {
    let amount = Amount::from(100);
    let stored = Transaction {
        tx: 1,
        client: 1,
        amount,
        kind: TransactionKind::Resolve,
    };
    assert_eq!(
        stored.apply(TransactionCommand {
            kind: TransactionKind::Resolve,
            tx: 2,
            client: 2
        }),
        Err(TransactionError::UnexpectedTx {
            expected: 1,
            got: 2
        })
    );
    assert_eq!(
        stored.apply(TransactionCommand {
            kind: TransactionKind::Resolve,
            tx: 1,
            client: 2
        }),
        Err(TransactionError::UnexpectedClient {
            expected: 1,
            got: 2
        })
    );
}

#[test]
fn advance_opens_where_nothing_is_stored() {
    let amount = Amount::from(10);
    let command = TransactionCommand {
        kind: TransactionKind::Deposit { amount },
        tx: 1,
        client: 1,
    };
    assert_eq!(
        Transaction::advance(None, command),
        Ok(Transaction {
            tx: 1,
            client: 1,
            amount,
            kind: TransactionKind::Deposit { amount }
        })
    );
}

#[test]
fn advance_refuses_a_dispute_of_nothing() {
    let command = TransactionCommand {
        kind: TransactionKind::Dispute,
        tx: 99,
        client: 1,
    };
    assert_eq!(
        Transaction::advance(None, command),
        Err(TransactionError::RootTransactionRequired)
    );
}

#[test]
fn advance_steps_where_something_is_stored() {
    let amount = Amount::from(10);
    let stored = Transaction {
        tx: 1,
        client: 1,
        amount,
        kind: TransactionKind::Deposit { amount },
    };
    let dispute = TransactionCommand {
        kind: TransactionKind::Dispute,
        tx: 1,
        client: 1,
    };
    let disputed = Transaction::advance(Some(stored), dispute).unwrap();
    assert_eq!(
        disputed,
        Transaction {
            tx: 1,
            client: 1,
            amount,
            kind: TransactionKind::Dispute
        }
    );
    let again = TransactionCommand {
        kind: TransactionKind::Deposit { amount },
        tx: 1,
        client: 1,
    };
    assert_eq!(
        Transaction::advance(Some(stored), again),
        Err(TransactionError::InvalidState {
            from: stored.kind,
            to: again.kind
        })
    );
}

#[test]
fn a_refused_step_is_refused_again_in_the_same_way() {
    let amount = Amount::from(10);
    let stored = Transaction {
        tx: 1,
        client: 1,
        amount,
        kind: TransactionKind::ChargeBack,
    };
    let command = TransactionCommand {
        kind: TransactionKind::Resolve,
        tx: 1,
        client: 1,
    };
    let first = Transaction::advance(Some(stored), command);
    let second = Transaction::advance(Some(stored), command);
    assert!(first.is_err());
    assert_eq!(first, second);
    assert_eq!(stored.kind, TransactionKind::ChargeBack);
}
