//! The life cycle of a transaction.
//!
//! A transaction is opened by a deposit or a withdrawal, which fix its client
//! and its amount. A dispute may follow, and a dispute ends in a resolve or in
//! a chargeback. Every other step is refused.
use crate::amount::Amount;
use crate::storage::StorageError;
use std::collections::HashMap;
use vstd::prelude::*;
use vstd::std_specs::convert::TryFromSpecImpl;

verus! {

/// What a command asks for, and the state a transaction is in. Only deposits
/// and withdrawals carry an amount.
#[derive(Clone, Copy, Debug, PartialEq, Eq, Structural)]
pub enum TransactionKind {
    Deposit { amount: Amount },
    Withdrawal { amount: Amount },
    Dispute,
    Resolve,
    ChargeBack,
}

/// One instruction as it arrives: what to do, to which transaction, for which
/// client.
#[derive(Clone, Copy, Debug, PartialEq, Eq, Structural)]
pub struct TransactionCommand {
    pub kind: TransactionKind,
    pub tx: u32,
    pub client: u16,
}

/// A transaction in its present state. The amount is the one it was opened
/// with: disputes, resolves and chargebacks bring none of their own.
#[derive(Clone, Copy, Debug, PartialEq, Eq, Structural)]
pub struct Transaction {
    pub tx: u32,
    pub amount: Amount,
    pub kind: TransactionKind,
    pub client: u16,
}

/// Why a command cannot move a transaction on.
#[allow(inconsistent_fields)]
#[derive(Clone, Copy, Debug, PartialEq, Eq, Structural)]
pub enum TransactionError {
    /// There is no step from the state `from` to the state `to`.
    InvalidState { from: TransactionKind, to: TransactionKind },
    /// The command comes from another client than the transaction's owner.
    UnexpectedClient { expected: u16, got: u16 },
    /// The command names another transaction than the one it is applied to.
    UnexpectedTx { expected: u32, got: u32 },
    /// Only a deposit or a withdrawal can open a transaction.
    RootTransactionRequired,
}

impl TransactionKind {
    /// Whether the kind opens a transaction: deposits and withdrawals do.
    pub open spec fn is_root(self) -> bool {
        self is Deposit || self is Withdrawal
    }
}

impl Transaction {
    /// Whether the amount is the one that the kind carries, where the kind
    /// carries one. Every transaction that a command has opened is so.
    pub open spec fn consistent(self) -> bool {
        match self.kind {
            TransactionKind::Deposit { amount } | TransactionKind::Withdrawal { amount } => amount
                == self.amount,
            _ => true,
        }
    }

    /// The transaction that a command opens: a deposit or a withdrawal gives
    /// its number, client, kind and amount to the new transaction, and no
    /// other command opens one.
    pub open spec fn spec_open(command: TransactionCommand) -> Result<
        Transaction,
        TransactionError,
    > {
        match command.kind {
            TransactionKind::Deposit { amount } | TransactionKind::Withdrawal { amount } => Ok(
                Transaction { tx: command.tx, amount, kind: command.kind, client: command.client },
            ),
            _ => Err(TransactionError::RootTransactionRequired),
        }
    }

    /// The table of steps. A deposit or a withdrawal can be disputed, and the
    /// dispute takes over the amount that the kind carries. A dispute can be
    /// resolved or charged back, and keeps the transaction's amount. Nothing
    /// else is a step.
    pub open spec fn spec_next(self, kind: TransactionKind) -> Result<
        Transaction,
        TransactionError,
    > {
        match (self.kind, kind) {
            (TransactionKind::Deposit { amount }, TransactionKind::Dispute)
            | (TransactionKind::Withdrawal { amount }, TransactionKind::Dispute) => Ok(
                Transaction { tx: self.tx, client: self.client, amount, kind },
            ),
            (TransactionKind::Dispute, TransactionKind::Resolve)
            | (TransactionKind::Dispute, TransactionKind::ChargeBack) => Ok(
                Transaction { tx: self.tx, client: self.client, amount: self.amount, kind },
            ),
            _ => Err(TransactionError::InvalidState { from: self.kind, to: kind }),
        }
    }

    /// A command applied to a stored transaction: the command must name this
    /// transaction, then this client, and then ask for a step of the table.
    pub open spec fn spec_apply(self, command: TransactionCommand) -> Result<
        Transaction,
        TransactionError,
    > {
        if self.tx != command.tx {
            Err(TransactionError::UnexpectedTx { expected: self.tx, got: command.tx })
        } else if self.client != command.client {
            Err(TransactionError::UnexpectedClient { expected: self.client, got: command.client })
        } else {
            self.spec_next(command.kind)
        }
    }

    /// The state machine: a command meets what the ledger holds under its
    /// number, if anything.
    pub open spec fn spec_advance(stored: Option<Transaction>, command: TransactionCommand)
        -> Result<Transaction, TransactionError> {
        match stored {
            Some(previous) => previous.spec_apply(command),
            None => Transaction::spec_open(command),
        }
    }

    /// Moves the transaction to the state `kind` where the table of steps has
    /// that step, and refuses with `InvalidState` where it has not. Number and
    /// client stay as they are.
    pub fn next(&self, kind: TransactionKind) -> (r: Result<Transaction, TransactionError>)
        ensures
            r == self.spec_next(kind),
    {
        match (self.kind, kind) {
            (TransactionKind::Deposit { amount }, TransactionKind::Dispute) => Ok(
                Transaction { tx: self.tx, client: self.client, amount, kind },
            ),
            (TransactionKind::Withdrawal { amount }, TransactionKind::Dispute) => Ok(
                Transaction { tx: self.tx, client: self.client, amount, kind },
            ),
            (TransactionKind::Dispute, TransactionKind::Resolve) => Ok(
                Transaction { tx: self.tx, client: self.client, amount: self.amount, kind },
            ),
            (TransactionKind::Dispute, TransactionKind::ChargeBack) => Ok(
                Transaction { tx: self.tx, client: self.client, amount: self.amount, kind },
            ),
            _ => Err(TransactionError::InvalidState { from: self.kind, to: kind }),
        }
    }

    /// Applies a command to this stored transaction. A command with another
    /// number is refused with `UnexpectedTx`, then one from another client
    /// with `UnexpectedClient`; what is left goes through the table of steps.
    pub fn apply(&self, command: TransactionCommand) -> (r: Result<Transaction, TransactionError>)
        ensures
            r == self.spec_apply(command),
    {
        if self.tx != command.tx {
            return Err(TransactionError::UnexpectedTx { expected: self.tx, got: command.tx });
        }
        if self.client != command.client {
            return Err(
                TransactionError::UnexpectedClient { expected: self.client, got: command.client },
            );
        }
        self.next(command.kind)
    }

    /// The state machine's one step: the next record of a transaction, from
    /// what the ledger holds under the command's number and the command.
    /// Nothing is stored: the caller keeps the result.
    pub fn advance(stored: Option<Transaction>, command: TransactionCommand) -> (r: Result<
        Transaction,
        TransactionError,
    >)
        ensures
            r == Transaction::spec_advance(stored, command),
    {
        match stored {
            Some(previous) => previous.apply(command),
            None => Transaction::try_from(command),
        }
    }
}

impl TryFrom<TransactionCommand> for Transaction {
    type Error = TransactionError;

    /// Opens a transaction from a deposit or a withdrawal; any other command
    /// is refused with `RootTransactionRequired`.
    fn try_from(command: TransactionCommand) -> (r: Result<Transaction, TransactionError>) {
        match command.kind {
            TransactionKind::Deposit { amount } => Ok(
                Transaction { tx: command.tx, amount, kind: command.kind, client: command.client },
            ),
            TransactionKind::Withdrawal { amount } => Ok(
                Transaction { tx: command.tx, amount, kind: command.kind, client: command.client },
            ),
            _ => Err(TransactionError::RootTransactionRequired),
        }
    }
}

impl TryFromSpecImpl<TransactionCommand> for Transaction {
    open spec fn obeys_try_from_spec() -> bool {
        true
    }

    open spec fn try_from_spec(command: TransactionCommand) -> Result<
        Transaction,
        TransactionError,
    > {
        Transaction::spec_open(command)
    }
}

/// A transaction that a command opens has the command's number, client and
/// kind, and the amount that the kind carries.
pub proof fn lemma_opened_transaction_copies_command(command: TransactionCommand)
    ensures
        Transaction::spec_open(command) matches Ok(opened) ==> {
            &&& opened.tx == command.tx
            &&& opened.client == command.client
            &&& opened.kind == command.kind
            &&& opened.consistent()
        },
        Transaction::spec_open(command) is Ok <==> command.kind.is_root(),
{
}

/// Number, client and amount of a transaction are fixed for its lifetime: a
/// step changes the kind, to the one that the command asks for, and nothing
/// else.
pub proof fn lemma_step_changes_only_the_kind(stored: Transaction, command: TransactionCommand)
    requires
        stored.consistent(),
    ensures
        stored.spec_apply(command) matches Ok(next) ==> {
            &&& next.tx == stored.tx
            &&& next.client == stored.client
            &&& next.amount == stored.amount
            &&& next.kind == command.kind
            &&& next.consistent()
        },
{
}

/// The steps are those of the table and no others: a deposit or a withdrawal
/// can be disputed, a dispute can be resolved or charged back.
pub proof fn lemma_steps_are_those_of_the_table(stored: Transaction, kind: TransactionKind)
    ensures
        stored.spec_next(kind) is Ok <==> {
            ||| stored.kind.is_root() && kind is Dispute
            ||| stored.kind is Dispute && (kind is Resolve || kind is ChargeBack)
        },
        stored.spec_next(kind) matches Err(e) ==> e == (TransactionError::InvalidState {
            from: stored.kind,
            to: kind,
        }),
{
}

/// A resolved or charged back transaction takes no further command, and no
/// command turns a stored transaction into a deposit or a withdrawal.
pub proof fn lemma_final_states_and_roots(stored: Transaction, command: TransactionCommand)
    requires
        stored.kind is Resolve || stored.kind is ChargeBack || command.kind.is_root(),
    ensures
        stored.spec_apply(command) is Err,
{
}

/// What a ledger with the contents `ledger` holds under the number `id`.
pub open spec fn stored_under(ledger: Map<u32, Transaction>, id: u32) -> Option<Transaction> {
    if ledger.contains_key(id) {
        Some(ledger[id])
    } else {
        None
    }
}

/// Whether `found` lists the transactions that `ledger` holds for `client`:
/// `ids` are the numbers of all of them, each once, and `found` holds the
/// transaction of each number, in the same order.
pub open spec fn lists_client(
    ledger: Map<u32, Transaction>,
    client: u16,
    ids: Seq<u32>,
    found: Seq<Transaction>,
) -> bool {
    &&& ids.len() == found.len()
    &&& ids.no_duplicates()
    &&& forall|j: int|
        0 <= j < ids.len() ==> ledger.contains_key(#[trigger] ids[j]) && ledger[ids[j]] == found[j]
            && found[j].client == client
    &&& forall|id: u32|
        ledger.contains_key(id) && (#[trigger] ledger[id]).client == client ==> ids.contains(id)
}

/// Whether one of the first `count` entries of `entries` has the number `id`.
spec fn visited(entries: Seq<(&u32, &Transaction)>, count: int, id: u32) -> bool {
    exists|i: int| 0 <= i < count && *(#[trigger] entries[i]).0 == id
}

/// Whether one of the entries of `entries` from the place `count` on has the
/// number `id`.
spec fn pending(entries: Seq<(&u32, &Transaction)>, count: int, id: u32) -> bool {
    exists|i: int| count <= i < entries.len() && *(#[trigger] entries[i]).0 == id
}

/// A ledger: the present state of every transaction, by its number.
///
/// Implement this for the storage of your choice. A failed write must leave
/// the ledger as it was.
pub trait TransactionsRepo {
    /// The transactions that the ledger holds, by number.
    spec fn view(&self) -> Map<u32, Transaction>;

    /// Whether reads and writes of this ledger always succeed.
    spec fn never_fails() -> bool;

    /// The transaction stored under `id`, if there is one.
    fn get(&self, id: u32) -> (r: Result<Option<Transaction>, StorageError>)
        ensures
            r matches Ok(found) ==> found == stored_under(self.view(), id),
            Self::never_fails() ==> r is Ok,
    ;

    /// Stores the transaction under its number, in place of what was there,
    /// and returns the number.
    fn save(&mut self, transaction: Transaction) -> (r: Result<u32, StorageError>)
        ensures
            r matches Ok(id) ==> id == transaction.tx && final(self).view() == old(
                self,
            ).view().insert(transaction.tx, transaction),
            r is Err ==> final(self).view() == old(self).view(),
            Self::never_fails() ==> r is Ok,
    ;
}

/// A plain ledger in memory for a single owner: a map from number to
/// transaction, whose reads and writes cannot fail.
pub struct Repo {
    data: HashMap<u32, Transaction>,
}

impl View for Repo {
    type V = Map<u32, Transaction>;

    /// The transactions that the ledger holds, by number.
    closed spec fn view(&self) -> Map<u32, Transaction> {
        self.data@
    }
}

/// The transactions that a list of references points to.
pub open spec fn pointees(found: Seq<&Transaction>) -> Seq<Transaction> {
    Seq::new(found.len(), |i: int| *found[i])
}

/// The transaction that an optional reference points to.
pub open spec fn pointee(found: Option<&Transaction>) -> Option<Transaction> {
    match found {
        Some(transaction) => Some(*transaction),
        None => None,
    }
}

impl Repo {
    /// An empty ledger.
    pub fn new() -> (r: Repo)
        ensures
            r@ == Map::<u32, Transaction>::empty(),
    {
        Repo { data: HashMap::new() }
    }

    /// The transaction stored under `id`, if there is one.
    pub fn get(&self, id: u32) -> (r: Option<&Transaction>)
        ensures
            pointee(r) == stored_under(self@, id),
    {
        self.data.get(&id)
    }

    /// Stores the transaction under its number, in place of what was there,
    /// and returns the number.
    pub fn save(&mut self, transaction: Transaction) -> (r: u32)
        ensures
            r == transaction.tx,
            final(self)@ == old(self)@.insert(transaction.tx, transaction),
    {
        self.data.insert(transaction.tx, transaction);
        transaction.tx
    }

    /// The transactions of one client: every stored transaction of that
    /// client once, in no particular order.
    pub fn get_by_client(&self, client: u16) -> (r: Vec<&Transaction>)
        ensures
            exists|ids: Seq<u32>| lists_client(self@, client, ids, pointees(r@)),
    {
        broadcast use vstd::std_specs::hash::group_hash_axioms;

        let mut found: Vec<&Transaction> = Vec::new();
        let ghost mut ids: Seq<u32> = Seq::empty();
        for entry in it: self.data.iter()
            invariant
                it.seq().no_duplicates(),
                forall|i: int|
                    0 <= i < it.seq().len() ==> self.data@.contains_key(*(#[trigger] it.seq()[i]).0)
                        && self.data@[*it.seq()[i].0] == *it.seq()[i].1,
                forall|id: u32| #[trigger]
                    self.data@.contains_key(id) ==> it.seq().contains((&id, &self.data@[id])),
                ids.len() == found.len(),
                ids.no_duplicates(),
                forall|j: int|
                    0 <= j < ids.len() ==> self.data@.contains_key(#[trigger] ids[j])
                        && self.data@[ids[j]] == *found[j] && found[j].client == client
                        && visited(it.seq(), it.index(), ids[j]),
                forall|id: u32|
                    self.data@.contains_key(id) && (#[trigger] self.data@[id]).client == client
                        ==> ids.contains(id) || pending(it.seq(), it.index(), id),
        {
            let (id, transaction) = entry;
            let ghost before = ids;
            if transaction.client == client {
                proof {
                    let n = it.index();
                    assert forall|j: int| 0 <= j < ids.len() implies ids[j] != *id by {
                        if ids[j] == *id {
                            let i = choose|i: int|
                                0 <= i < n && *(#[trigger] it.seq()[i]).0 == ids[j];
                            assert(it.seq()[i] == it.seq()[n]);
                        }
                    }
                    ids = ids.push(*id);
                    assert(ids[ids.len() - 1] == *id);
                }
                found.push(transaction);
            }
            proof {
                let n = it.index();
                assert forall|j: int| 0 <= j < ids.len() implies visited(
                    it.seq(),
                    n + 1,
                    #[trigger] ids[j],
                ) by {
                    if ids[j] != *id {
                        let i = choose|i: int| 0 <= i < n && *(#[trigger] it.seq()[i]).0 == ids[j];
                        assert(0 <= i < n + 1);
                    } else {
                        assert(*it.seq()[n].0 == ids[j]);
                    }
                }
                assert forall|other: u32|
                    self.data@.contains_key(other) && (#[trigger] self.data@[other]).client
                        == client implies ids.contains(other) || pending(
                    it.seq(),
                    n + 1,
                    other,
                ) by {
                    if before.contains(other) {
                        let j = choose|j: int| 0 <= j < before.len() && before[j] == other;
                        assert(ids[j] == other);
                    } else {
                        let i = choose|i: int|
                            n <= i < it.seq().len() && *(#[trigger] it.seq()[i]).0 == other;
                        if i == n {
                            assert(ids[ids.len() - 1] == other);
                        }
                    }
                }
            }
        }
        proof {
            assert(lists_client(self@, client, ids, pointees(found@)));
        }
        found
    }
}

/// A ledger in memory behind the [`TransactionsRepo`] interface.
pub struct MemoryRepo {
    data: Repo,
}

impl MemoryRepo {
    /// An empty ledger.
    pub fn new() -> (r: MemoryRepo)
        ensures
            r.view() == Map::<u32, Transaction>::empty(),
    {
        MemoryRepo { data: Repo::new() }
    }

    /// The transactions of one client: every stored transaction of that
    /// client once, in no particular order.
    pub fn get_by_client(&self, client: u16) -> (r: Vec<Transaction>)
        ensures
            exists|ids: Seq<u32>| lists_client(self.view(), client, ids, r@),
    {
        let references = self.data.get_by_client(client);
        let mut found: Vec<Transaction> = Vec::new();
        let mut i: usize = 0;
        while i < references.len()
            invariant
                i <= references.len(),
                found@ == pointees(references@).take(i as int),
            decreases references.len() - i,
        {
            found.push(*references[i]);
            i += 1;
            assert(found@ =~= pointees(references@).take(i as int));
        }
        proof {
            assert(found@ =~= pointees(references@));
            let ids = choose|ids: Seq<u32>|
                lists_client(self.data@, client, ids, pointees(references@));
            assert(lists_client(self.view(), client, ids, found@));
        }
        found
    }
}

impl TransactionsRepo for MemoryRepo {
    closed spec fn view(&self) -> Map<u32, Transaction> {
        self.data@
    }

    open spec fn never_fails() -> bool {
        true
    }

    fn get(&self, id: u32) -> (r: Result<Option<Transaction>, StorageError>) {
        match self.data.get(id) {
            Some(transaction) => Ok(Some(*transaction)),
            None => Ok(None),
        }
    }

    fn save(&mut self, transaction: Transaction) -> (r: Result<u32, StorageError>) {
        Ok(self.data.save(transaction))
    }
}

} // verus!
