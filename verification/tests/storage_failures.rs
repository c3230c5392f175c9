use payments_engine::accounts::{AccountsRepo, MemoryRepo as AccountsMemoryRepo};
use payments_engine::amount::Amount;
use payments_engine::payments::{PaymentsEngine, ProcessError};
use payments_engine::storage::StorageError;
use payments_engine::transactions::{
    MemoryRepo as TransactionsMemoryRepo, Transaction, TransactionCommand, TransactionKind,
    TransactionsRepo,
};

/// A ledger that reads from memory and refuses every write.
struct ReadOnlyLedger {
    inner: TransactionsMemoryRepo,
}

impl TransactionsRepo for ReadOnlyLedger {
    fn view(&self) -> vstd::map::Map<u32, Transaction> {
        unreachable!()
    }

    fn never_fails() -> bool {
        false
    }

    fn get(&self, id: u32) -> Result<Option<Transaction>, StorageError> {
        self.inner.get(id)
    }

    fn save(&mut self, _transaction: Transaction) -> Result<u32, StorageError> {
        Err(StorageError {
            message: String::from("ledger is read-only"),
        })
    }
}

fn deposit(client: u16, tx: u32, amount: i64) -> TransactionCommand {
    TransactionCommand {
        kind: TransactionKind::Deposit {
            amount: Amount::from(amount),
        },
        tx,
        client,
    }
}

#[test]
fn failed_ledger_write_is_reported() {
    let ledger = ReadOnlyLedger {
        inner: TransactionsMemoryRepo::new(),
    };
    let mut engine = PaymentsEngine::new(ledger, AccountsMemoryRepo::new());
    let res = engine.process_transaction(deposit(1, 1, 10));
    assert_eq!(
        res,
        Err(ProcessError::Storage(StorageError {
            message: String::from("ledger is read-only")
        }))
    );
    // the ledger is as it was; the account was written before the ledger failed
    assert_eq!(engine.transactions().get(1).unwrap(), None);
    let account = engine.accounts().get(1).unwrap().unwrap();
    assert_eq!(account.available(), Amount::from(10));
}

#[test]
fn refused_command_never_reaches_a_failing_write() {
    let ledger = ReadOnlyLedger {
        inner: TransactionsMemoryRepo::new(),
    };
    let mut engine = PaymentsEngine::new(ledger, AccountsMemoryRepo::new());
    let res = engine.checked_process_transaction(TransactionCommand {
        kind: TransactionKind::Dispute,
        tx: 1,
        client: 1,
    });
    assert!(matches!(res, Some(Err(ProcessError::Transaction(_)))));
    assert!(engine.accounts().get_all().unwrap().is_empty());
}
