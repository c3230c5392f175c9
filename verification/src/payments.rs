//! The payments engine: one command at a time, against a ledger and an
//! account store.
//!
//! For each command the engine reads the transaction stored under the
//! command's number, moves it on through the state machine, applies the
//! result to the client's account (or opens the account), and writes back the
//! account and then the transaction. A command that is refused changes
//! nothing, and the engine is ready for the next one.
use crate::accounts::{stored_for, Account, AccountError, AccountView, AccountsRepo};
use crate::storage::StorageError;
use crate::transactions::{
    stored_under, Transaction, TransactionCommand, TransactionError, TransactionsRepo,
};
use vstd::prelude::*;

verus! {

/// Why a command was not processed.
#[derive(Debug, PartialEq, Eq)]
pub enum ProcessError {
    /// The state machine refused the command.
    Transaction(TransactionError),
    /// The balance rules refused the transaction.
    Account(AccountError),
    /// The ledger or the account store failed.
    Storage(StorageError),
}

/// What the engine keeps: the ledger and the accounts.
pub struct Books {
    pub ledger: Map<u32, Transaction>,
    pub accounts: Map<u16, AccountView>,
}

/// What the rules make of a command, given the books: the transaction and the
/// account to write back, or the reason to refuse. `None` where a balance
/// would overflow.
pub open spec fn settle(books: Books, command: TransactionCommand) -> Option<
    Result<(Transaction, AccountView), ProcessError>,
> {
    match Transaction::spec_advance(stored_under(books.ledger, command.tx), command) {
        Err(e) => Some(Err(ProcessError::Transaction(e))),
        Ok(transaction) => match stored_for(books.accounts, transaction.client) {
            None => match AccountView::opened_by(transaction) {
                Ok(account) => Some(Ok((transaction, account))),
                Err(e) => Some(Err(ProcessError::Account(e))),
            },
            Some(account) => match account.apply(transaction) {
                Some(Ok(account)) => Some(Ok((transaction, account))),
                Some(Err(e)) => Some(Err(ProcessError::Account(e))),
                None => None,
            },
        },
    }
}

/// What the engine answers to a command when its storage does not fail.
pub open spec fn verdict(books: Books, command: TransactionCommand) -> Option<
    Result<(), ProcessError>,
> {
    match settle(books, command) {
        Some(Ok(_)) => Some(Ok(())),
        Some(Err(e)) => Some(Err(e)),
        None => None,
    }
}

/// The books after a command: with the account and the transaction written
/// back where the command is accepted, and as they were where it is not.
pub open spec fn books_after(books: Books, command: TransactionCommand) -> Books {
    match settle(books, command) {
        Some(Ok((transaction, account))) => Books {
            ledger: books.ledger.insert(transaction.tx, transaction),
            accounts: books.accounts.insert(account.client, account),
        },
        _ => books,
    }
}

/// The books after a run of commands, each applied to what the one before
/// left.
pub open spec fn books_after_all(books: Books, commands: Seq<TransactionCommand>) -> Books
    decreases commands.len(),
{
    if commands.len() == 0 {
        books
    } else {
        books_after(books_after_all(books, commands.drop_last()), commands.last())
    }
}

/// Whether the storage failed on the way to this answer.
pub open spec fn storage_failed(answer: Option<Result<(), ProcessError>>) -> bool {
    answer matches Some(Err(ProcessError::Storage(_)))
}

/// What one command can make of the books, whatever the storage does.
///
/// * Answer `None`: a balance would overflow, and nothing has changed.
/// * A storage failure: the ledger is as it was; the accounts are as they
///   were, or already hold the new account, if the ledger's write was the one
///   to fail.
/// * Any other answer is the [`verdict`] of the rules, and the books are
///   [`books_after`] the command.
pub open spec fn processed(
    before: Books,
    command: TransactionCommand,
    answer: Option<Result<(), ProcessError>>,
    after: Books,
) -> bool {
    if answer is None {
        settle(before, command) is None && after == before
    } else if storage_failed(answer) {
        after.ledger == before.ledger && (after.accounts == before.accounts || after.accounts
            == books_after(before, command).accounts)
    } else {
        answer == verdict(before, command) && after == books_after(before, command)
    }
}

/// Whether `trace` holds the books before, between and after the commands of
/// a run with the given answers: one more entry than there are commands, each
/// command leading from its entry to the next.
pub open spec fn processed_all(
    trace: Seq<Books>,
    commands: Seq<TransactionCommand>,
    answers: Seq<Option<Result<(), ProcessError>>>,
) -> bool {
    &&& trace.len() == commands.len() + 1
    &&& answers.len() == commands.len()
    &&& forall|i: int|
        0 <= i < commands.len() ==> processed(
            #[trigger] trace[i],
            commands[i],
            answers[i],
            trace[i + 1],
        )
}

/// The engine. It owns its ledger and its account store.
pub struct PaymentsEngine<T: TransactionsRepo, A: AccountsRepo> {
    transactions: T,
    accounts: A,
}

impl<T: TransactionsRepo, A: AccountsRepo> View for PaymentsEngine<T, A> {
    type V = Books;

    closed spec fn view(&self) -> Books {
        Books { ledger: self.transactions.view(), accounts: self.accounts.view() }
    }
}

impl<T: TransactionsRepo, A: AccountsRepo> PaymentsEngine<T, A> {
    /// An engine over the given ledger and account store.
    pub fn new(transactions: T, accounts: A) -> (r: PaymentsEngine<T, A>)
        ensures
            r@ == (Books { ledger: transactions.view(), accounts: accounts.view() }),
    {
        PaymentsEngine { transactions, accounts }
    }

    /// The ledger.
    pub fn transactions(&self) -> (r: &T)
        ensures
            r.view() == self@.ledger,
    {
        &self.transactions
    }

    /// The account store.
    pub fn accounts(&self) -> (r: &A)
        ensures
            r.view() == self@.accounts,
    {
        &self.accounts
    }

    /// Whether the balances that `command` asks for can be computed without
    /// overflow, given what is stored.
    pub fn can_process(&self, command: TransactionCommand) -> (r: Result<bool, StorageError>)
        ensures
            r matches Ok(in_range) ==> in_range == (settle(self@, command) is Some),
            T::never_fails() && A::never_fails() ==> r is Ok,
    {
        let stored = match self.transactions.get(command.tx) {
            Ok(stored) => stored,
            Err(e) => {
                return Err(e);
            },
        };
        let transaction = match Transaction::advance(stored, command) {
            Ok(transaction) => transaction,
            Err(_) => {
                return Ok(true);
            },
        };
        match self.accounts.get(transaction.client) {
            Ok(Some(account)) => Ok(account.can_apply(&transaction)),
            Ok(None) => Ok(true),
            Err(e) => Err(e),
        }
    }

    /// Processes one command: moves the transaction on, applies it to the
    /// client's account, and writes back the account and then the
    /// transaction.
    ///
    /// Unless the storage fails, the answer is the [`verdict`] of the rules
    /// and the books are [`books_after`] the command: changed where the
    /// command is accepted, untouched where it is refused. Storage that never
    /// fails gives no storage error. Where the storage does fail, the ledger
    /// is as it was; the accounts are as they were, or already hold the new
    /// account if the ledger's write was the one to fail.
    ///
    /// The balances must not overflow;
    /// [`PaymentsEngine::checked_process_transaction`] asks for nothing.
    pub fn process_transaction(&mut self, command: TransactionCommand) -> (r: Result<
        (),
        ProcessError,
    >)
        requires
            settle(old(self)@, command) is Some,
        ensures
            processed(old(self)@, command, Some(r), final(self)@),
            T::never_fails() && A::never_fails() ==> !storage_failed(Some(r)),
    {
        let stored = match self.transactions.get(command.tx) {
            Ok(stored) => stored,
            Err(e) => {
                return Err(ProcessError::Storage(e));
            },
        };
        let transaction = match Transaction::advance(stored, command) {
            Ok(transaction) => transaction,
            Err(e) => {
                return Err(ProcessError::Transaction(e));
            },
        };
        let found = match self.accounts.get(transaction.client) {
            Ok(found) => found,
            Err(e) => {
                return Err(ProcessError::Storage(e));
            },
        };
        let applied = match found {
            Some(account) => account.apply(transaction),
            None => Account::new(transaction),
        };
        let updated = match applied {
            Ok(updated) => updated,
            Err(e) => {
                return Err(ProcessError::Account(e));
            },
        };
        match self.accounts.save(updated) {
            Ok(_) => {},
            Err(e) => {
                return Err(ProcessError::Storage(e));
            },
        }
        match self.transactions.save(transaction) {
            Ok(_) => Ok(()),
            Err(e) => Err(ProcessError::Storage(e)),
        }
    }

    /// Processes one command as [`PaymentsEngine::process_transaction`] does,
    /// or returns `None` and changes nothing where a balance would overflow.
    pub fn checked_process_transaction(&mut self, command: TransactionCommand) -> (r: Option<
        Result<(), ProcessError>,
    >)
        ensures
            processed(old(self)@, command, r, final(self)@),
            T::never_fails() && A::never_fails() ==> !storage_failed(r),
    {
        match self.can_process(command) {
            Ok(true) => Some(self.process_transaction(command)),
            Ok(false) => None,
            Err(e) => Some(Err(ProcessError::Storage(e))),
        }
    }

    /// Processes a run of commands in the order given, each against what the
    /// one before left, and returns the answer to each. A command that is
    /// refused, or whose balances would overflow (`None`), changes nothing
    /// and does not stop the run; nor does a failure of the storage.
    ///
    /// Each command has [`processed`] the books that the one before left. With
    /// storage that never fails, the books end as [`books_after_all`] the
    /// commands, and each answer is the [`verdict`] on its command given the
    /// books that the commands before it left.
    pub fn process_all(&mut self, commands: &[TransactionCommand]) -> (r: Vec<
        Option<Result<(), ProcessError>>,
    >)
        ensures
            r.len() == commands.len(),
            exists|trace: Seq<Books>|
                {
                    &&& #[trigger] processed_all(trace, commands@, r@)
                    &&& trace.first() == old(self)@
                    &&& trace.last() == final(self)@
                },
            T::never_fails() && A::never_fails() ==> final(self)@ == books_after_all(
                old(self)@,
                commands@,
            ),
            T::never_fails() && A::never_fails() ==> forall|i: int|
                0 <= i < commands.len() ==> #[trigger] r[i] == verdict(
                    books_after_all(old(self)@, commands@.take(i)),
                    commands[i],
                ),
    {
        let mut answers: Vec<Option<Result<(), ProcessError>>> = Vec::new();
        let mut done: usize = 0;
        let ghost mut trace: Seq<Books> = seq![self@];
        while done < commands.len()
            invariant
                done <= commands.len(),
                answers.len() == done,
                processed_all(trace, commands@.take(done as int), answers@),
                trace.first() == old(self)@,
                trace.last() == self@,
                T::never_fails() && A::never_fails() ==> self@ == books_after_all(
                    old(self)@,
                    commands@.take(done as int),
                ),
                T::never_fails() && A::never_fails() ==> forall|i: int|
                    0 <= i < done ==> #[trigger] answers[i] == verdict(
                        books_after_all(old(self)@, commands@.take(i)),
                        commands[i],
                    ),
            decreases commands.len() - done,
        {
            let ghost before = self@;
            let ghost steps = trace;
            let answer = self.checked_process_transaction(commands[done]);
            answers.push(answer);
            proof {
                let next = commands@.take(done + 1);
                assert(next.drop_last() =~= commands@.take(done as int));
                assert(next.last() == commands[done as int]);
                trace = trace.push(self@);
                assert forall|i: int| 0 <= i < next.len() implies processed(
                    #[trigger] trace[i],
                    next[i],
                    answers@[i],
                    trace[i + 1],
                ) by {
                    if i < done {
                        assert(processed(
                            steps[i],
                            commands@.take(done as int)[i],
                            answers@[i],
                            steps[i + 1],
                        ));
                    } else {
                        assert(trace[i] == before);
                    }
                }
            }
            done += 1;
        }
        assert(commands@.take(done as int) =~= commands@);
        answers
    }
}

/// A command that the rules refuse leaves the books as they were, and is
/// refused again, for the same reason, however often it is repeated.
pub proof fn lemma_rejection_changes_nothing(books: Books, command: TransactionCommand)
    requires
        verdict(books, command) matches Some(Err(_)),
    ensures
        books_after(books, command) == books,
        verdict(books_after(books, command), command) == verdict(books, command),
{
}

/// A command that is accepted writes back a transaction under the command's
/// number and an account under the transaction's client, and nothing else in
/// the books changes.
pub proof fn lemma_accepted_command_writes_its_own_entries(
    books: Books,
    command: TransactionCommand,
)
    requires
        settle(books, command) matches Some(Ok(_)),
    ensures
        settle(books, command) matches Some(Ok((transaction, account))) && {
            &&& transaction.tx == command.tx
            &&& transaction.client == command.client
            &&& account.client == command.client
            &&& books_after(books, command).ledger == books.ledger.insert(command.tx, transaction)
            &&& books_after(books, command).accounts == books.accounts.insert(
                command.client,
                account,
            )
        },
{
}

/// A withdrawal never takes `available` below zero: whatever the books hold,
/// the account that an accepted withdrawal writes back has an `available` of
/// zero or more.
pub proof fn lemma_withdrawal_never_overdraws(books: Books, command: TransactionCommand)
    requires
        command.kind is Withdrawal,
    ensures
        settle(books, command) matches Some(Ok((_, account)))
            ==> !account.available.spec_is_negative(),
{
}

/// The account of a locked client is out of every command's reach: whatever
/// the command, the books hold the same account for that client afterwards,
/// locked as before.
pub proof fn lemma_locked_account_is_frozen(books: Books, command: TransactionCommand, client: u16)
    requires
        books.accounts.contains_key(client),
        books.accounts[client].locked,
    ensures
        books_after(books, command).accounts.contains_key(client),
        books_after(books, command).accounts[client] == books.accounts[client],
{
}

/// A lock survives whatever a command makes of the books, a failure of the
/// storage included: the locked client keeps the same account.
pub proof fn lemma_lock_survives_processing(
    before: Books,
    command: TransactionCommand,
    answer: Option<Result<(), ProcessError>>,
    after: Books,
    client: u16,
)
    requires
        processed(before, command, answer, after),
        before.accounts.contains_key(client),
        before.accounts[client].locked,
    ensures
        after.accounts.contains_key(client),
        after.accounts[client] == before.accounts[client],
{
    lemma_locked_account_is_frozen(before, command, client);
}

/// A command that the engine refuses, for a reason other than its storage,
/// leaves the books as they were.
pub proof fn lemma_refused_command_changes_nothing(
    before: Books,
    command: TransactionCommand,
    answer: Option<Result<(), ProcessError>>,
    after: Books,
)
    requires
        processed(before, command, answer, after),
        answer matches Some(Err(_)),
        !storage_failed(answer),
    ensures
        after == before,
        verdict(after, command) == answer,
{
}

/// Once locked, locked for the rest of the run: whatever commands follow, a
/// client whose account is locked keeps that account, locked and with the
/// same balances.
pub proof fn lemma_lock_survives_run(books: Books, commands: Seq<TransactionCommand>, client: u16)
    requires
        books.accounts.contains_key(client),
        books.accounts[client].locked,
    ensures
        books_after_all(books, commands).accounts.contains_key(client),
        books_after_all(books, commands).accounts[client] == books.accounts[client],
        books_after_all(books, commands).accounts[client].locked,
    decreases commands.len(),
{
    if commands.len() > 0 {
        lemma_lock_survives_run(books, commands.drop_last(), client);
        lemma_locked_account_is_frozen(
            books_after_all(books, commands.drop_last()),
            commands.last(),
            client,
        );
    }
}

/// Once locked, locked for the rest of the run, whatever the storage does:
/// through every step of a run, a client whose account is locked at the start
/// keeps that account.
pub proof fn lemma_lock_survives_trace(
    trace: Seq<Books>,
    commands: Seq<TransactionCommand>,
    answers: Seq<Option<Result<(), ProcessError>>>,
    client: u16,
    step: int,
)
    requires
        processed_all(trace, commands, answers),
        trace.first().accounts.contains_key(client),
        trace.first().accounts[client].locked,
        0 <= step <= commands.len(),
    ensures
        trace[step].accounts.contains_key(client),
        trace[step].accounts[client] == trace.first().accounts[client],
    decreases step,
{
    if step > 0 {
        lemma_lock_survives_trace(trace, commands, answers, client, step - 1);
        lemma_lock_survives_processing(
            trace[step - 1],
            commands[step - 1],
            answers[step - 1],
            trace[step],
            client,
        );
    }
}

} // verus!
