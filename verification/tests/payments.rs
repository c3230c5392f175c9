use payments_engine::accounts::MemoryRepo as AccountsMemoryRepo;
use payments_engine::amount::Amount;
use payments_engine::payments::PaymentsEngine;
use payments_engine::transactions::{
    MemoryRepo as TransactionsMemoryRepo, TransactionCommand, TransactionKind,
};

#[test]
fn test_process() {
    let transactions_repo = TransactionsMemoryRepo::new();
    let accounts_repo = AccountsMemoryRepo::new();
    let mut engine = PaymentsEngine::new(transactions_repo, accounts_repo);
    let amount = Amount::from(99);
    let command = TransactionCommand {
        kind: TransactionKind::Deposit { amount },
        tx: 1,
        client: 1,
    };
    engine.process_transaction(command).unwrap();
}
