//! Client accounts and the rules by which transactions change them.
//!
//! An account holds the funds that its client can spend (`available`), the
//! funds frozen by disputes (`held`) and a lock. Their total is never stored:
//! it is the sum of the two. A chargeback locks the account, and a locked
//! account takes no further transaction.
use crate::amount::Amount;
use crate::storage::StorageError;
use crate::transactions::{Transaction, TransactionKind};
use std::collections::HashMap;
use vstd::prelude::*;

verus! {

/// Why a transaction cannot be applied to an account.
#[derive(Clone, Copy, Debug, PartialEq, Eq, Structural)]
pub enum AccountError {
    /// A withdrawal asks for more than is available.
    InsufficientFunds,
    /// The transaction belongs to another client.
    InvalidClient,
    /// Only a deposit can open an account.
    InvalidInitialTransaction,
    /// The account is locked.
    AccountLocked,
}

/// The balances of one client.
#[derive(Clone, Copy, Debug)]
pub struct Account {
    client: u16,
    available: Amount,
    held: Amount,
    locked: bool,
}

/// What an account holds, for use in contracts.
pub struct AccountView {
    pub client: u16,
    pub available: Amount,
    pub held: Amount,
    pub locked: bool,
}

impl View for Account {
    type V = AccountView;

    closed spec fn view(&self) -> AccountView {
        AccountView {
            client: self.client,
            available: self.available,
            held: self.held,
            locked: self.locked,
        }
    }
}

/// The outcome of an operation on accounts, with the account taken by its
/// view.
pub open spec fn outcome(r: Result<Account, AccountError>) -> Result<AccountView, AccountError> {
    match r {
        Ok(account) => Ok(account@),
        Err(e) => Err(e),
    }
}

/// The outcome of an operation that gives `None` where a balance would
/// overflow.
pub open spec fn checked_outcome(r: Option<Result<Account, AccountError>>) -> Option<
    Result<AccountView, AccountError>,
> {
    match r {
        Some(result) => Some(outcome(result)),
        None => None,
    }
}

impl AccountView {
    /// The account that a first transaction opens. Only a deposit opens one:
    /// its amount is available, nothing is held, and the account is unlocked.
    pub open spec fn opened_by(first: Transaction) -> Result<AccountView, AccountError> {
        match first.kind {
            TransactionKind::Deposit { amount } => Ok(
                AccountView {
                    client: first.client,
                    available: amount,
                    held: Amount::whole(0),
                    locked: false,
                },
            ),
            _ => Err(AccountError::InvalidInitialTransaction),
        }
    }

    /// The total funds: available plus held, `None` where the sum overflows.
    pub open spec fn total(self) -> Option<Amount> {
        self.available.spec_checked_add(self.held)
    }

    /// The balance rules. A transaction of another client is refused, then
    /// any transaction on a locked account. Otherwise
    ///
    /// * a deposit adds its amount to `available`;
    /// * a withdrawal takes it from `available`, unless that would leave less
    ///   than zero;
    /// * a dispute moves it from `available` to `held`;
    /// * a resolve moves it from `held` back to `available`;
    /// * a chargeback takes it from `held` and locks the account.
    ///
    /// The result is `None` where one of these sums or differences overflows.
    pub open spec fn apply(self, transaction: Transaction) -> Option<
        Result<AccountView, AccountError>,
    > {
        let amount = transaction.amount;
        if self.client != transaction.client {
            Some(Err(AccountError::InvalidClient))
        } else if self.locked {
            Some(Err(AccountError::AccountLocked))
        } else {
            match transaction.kind {
                TransactionKind::Deposit { .. } => match self.available.spec_checked_add(amount) {
                    Some(available) => Some(Ok(AccountView { available, ..self })),
                    None => None,
                },
                TransactionKind::Withdrawal { .. } => match self.available.spec_checked_sub(
                    amount,
                ) {
                    Some(available) => if available.spec_is_negative() {
                        Some(Err(AccountError::InsufficientFunds))
                    } else {
                        Some(Ok(AccountView { available, ..self }))
                    },
                    None => None,
                },
                TransactionKind::Dispute => match (
                    self.available.spec_checked_sub(amount),
                    self.held.spec_checked_add(amount),
                ) {
                    (Some(available), Some(held)) => Some(
                        Ok(AccountView { available, held, ..self }),
                    ),
                    _ => None,
                },
                TransactionKind::Resolve => match (
                    self.held.spec_checked_sub(amount),
                    self.available.spec_checked_add(amount),
                ) {
                    (Some(held), Some(available)) => Some(
                        Ok(AccountView { available, held, ..self }),
                    ),
                    _ => None,
                },
                TransactionKind::ChargeBack => match self.held.spec_checked_sub(amount) {
                    Some(held) => Some(Ok(AccountView { held, locked: true, ..self })),
                    None => None,
                },
            }
        }
    }
}

impl Account {
    /// Opens an account from its first transaction, a deposit: the deposit's
    /// amount is available, nothing is held, the account is unlocked. Any
    /// other kind is refused with `InvalidInitialTransaction`.
    pub fn new(transaction: Transaction) -> (r: Result<Account, AccountError>)
        ensures
            outcome(r) == AccountView::opened_by(transaction),
    {
        match transaction.kind {
            TransactionKind::Deposit { amount } => Ok(
                Account {
                    client: transaction.client,
                    available: amount,
                    held: Amount::zero(),
                    locked: false,
                },
            ),
            _ => Err(AccountError::InvalidInitialTransaction),
        }
    }

    /// The client that owns the account.
    pub fn client(&self) -> (r: u16)
        ensures
            r == self@.client,
    {
        self.client
    }

    /// The funds that the client can spend.
    pub fn available(&self) -> (r: Amount)
        ensures
            r == self@.available,
    {
        self.available
    }

    /// The funds frozen by disputes.
    pub fn held(&self) -> (r: Amount)
        ensures
            r == self@.held,
    {
        self.held
    }

    /// Whether a chargeback has locked the account.
    pub fn is_locked(&self) -> (r: bool)
        ensures
            r == self@.locked,
    {
        self.locked
    }

    /// The total funds: the sum of `available` and `held`, computed anew at
    /// every call. The sum must not overflow; [`Account::checked_total`] asks
    /// for nothing.
    pub fn total(&self) -> (r: Amount)
        requires
            self@.total() is Some,
        ensures
            Some(r) == self@.total(),
            Some(r) == self@.available.spec_checked_add(self@.held),
    {
        self.available.checked_add(self.held).unwrap()
    }

    /// The total funds, or `None` where the sum of `available` and `held`
    /// overflows.
    pub fn checked_total(&self) -> (r: Option<Amount>)
        ensures
            r == self@.total(),
    {
        match self.available.checked_add(self.held) {
            Some(_) => Some(self.total()),
            None => None,
        }
    }

    /// Whether every sum and difference that the balance rules ask for, for
    /// this account and transaction, can be computed without overflow.
    pub fn can_apply(&self, transaction: &Transaction) -> (r: bool)
        ensures
            r == (self@.apply(*transaction) is Some),
    {
        let amount = transaction.amount;
        if self.client != transaction.client || self.locked {
            return true;
        }
        match transaction.kind {
            TransactionKind::Deposit { .. } => self.available.checked_add(amount).is_some(),
            TransactionKind::Withdrawal { .. } => self.available.checked_sub(amount).is_some(),
            TransactionKind::Dispute => self.available.checked_sub(amount).is_some()
                && self.held.checked_add(amount).is_some(),
            TransactionKind::Resolve => self.held.checked_sub(amount).is_some()
                && self.available.checked_add(amount).is_some(),
            TransactionKind::ChargeBack => self.held.checked_sub(amount).is_some(),
        }
    }

    /// Applies a transaction to the account by the balance rules of
    /// [`AccountView::apply`] and returns the account that results; the
    /// account given stays as it was.
    ///
    /// The sums and differences that the rules ask for must not overflow;
    /// [`Account::checked_apply`] asks for nothing.
    ///
    /// A withdrawal that succeeds leaves `available` at zero or above. A
    /// locked account refuses everything, and no transaction unlocks one.
    pub fn apply(self, transaction: Transaction) -> (r: Result<Account, AccountError>)
        requires
            self@.apply(transaction) is Some,
        ensures
            Some(outcome(r)) == self@.apply(transaction),
            transaction.kind is Withdrawal ==> (r matches Ok(after)
                ==> !after@.available.spec_is_negative()),
            self@.locked ==> r is Err,
            r matches Ok(after) ==> after@.client == self@.client,
    {
        let amount = transaction.amount;
        if self.client != transaction.client {
            return Err(AccountError::InvalidClient);
        }
        if self.locked {
            return Err(AccountError::AccountLocked);
        }
        let mut account = self;
        match transaction.kind {
            TransactionKind::Deposit { .. } => {
                account.available = self.available.checked_add(amount).unwrap();
                Ok(account)
            },
            TransactionKind::Withdrawal { .. } => {
                let available = self.available.checked_sub(amount).unwrap();
                if available.is_negative() {
                    return Err(AccountError::InsufficientFunds);
                }
                account.available = available;
                Ok(account)
            },
            TransactionKind::Dispute => {
                account.available = self.available.checked_sub(amount).unwrap();
                account.held = self.held.checked_add(amount).unwrap();
                Ok(account)
            },
            TransactionKind::Resolve => {
                account.held = self.held.checked_sub(amount).unwrap();
                account.available = self.available.checked_add(amount).unwrap();
                Ok(account)
            },
            TransactionKind::ChargeBack => {
                account.held = self.held.checked_sub(amount).unwrap();
                account.locked = true;
                Ok(account)
            },
        }
    }

    /// Applies a transaction as [`Account::apply`] does, or returns `None`
    /// where a sum or difference that the balance rules ask for overflows.
    pub fn checked_apply(self, transaction: Transaction) -> (r: Option<
        Result<Account, AccountError>,
    >)
        ensures
            checked_outcome(r) == self@.apply(transaction),
    {
        if self.can_apply(&transaction) {
            Some(self.apply(transaction))
        } else {
            None
        }
    }
}

/// A withdrawal never takes `available` below zero: where the rules accept a
/// withdrawal, the account that results has an `available` of zero or more.
pub proof fn lemma_withdrawal_leaves_available_non_negative(
    account: AccountView,
    transaction: Transaction,
)
    requires
        transaction.kind is Withdrawal,
    ensures
        account.apply(transaction) matches Some(Ok(after)) ==> !after.available.spec_is_negative(),
{
}

/// A locked account refuses every transaction, whatever its kind.
pub proof fn lemma_locked_account_refuses(account: AccountView, transaction: Transaction)
    requires
        account.locked,
    ensures
        account.apply(transaction) == Some(
            Err::<AccountView, AccountError>(
                if account.client != transaction.client {
                    AccountError::InvalidClient
                } else {
                    AccountError::AccountLocked
                },
            ),
        ),
{
}

/// No transaction unlocks an account or hands it to another client, and only
/// a chargeback locks one.
pub proof fn lemma_lock_is_one_way(account: AccountView, transaction: Transaction)
    ensures
        account.apply(transaction) matches Some(Ok(after)) ==> {
            &&& after.client == account.client
            &&& account.locked ==> after.locked
            &&& after.locked && !account.locked ==> transaction.kind is ChargeBack
        },
{
}

/// What an account store with the contents `store` holds for `client`.
pub open spec fn stored_for(store: Map<u16, AccountView>, client: u16) -> Option<AccountView> {
    if store.contains_key(client) {
        Some(store[client])
    } else {
        None
    }
}

/// What has been read from an account store, with the account taken by its
/// view.
pub open spec fn read(found: Option<Account>) -> Option<AccountView> {
    match found {
        Some(account) => Some(account@),
        None => None,
    }
}

/// Whether `found` lists the accounts that `store` holds: `clients` are all
/// its clients, each once, and `found` holds the account of each, in the same
/// order.
pub open spec fn lists_all(
    store: Map<u16, AccountView>,
    clients: Seq<u16>,
    found: Seq<Account>,
) -> bool {
    &&& clients.len() == found.len()
    &&& clients.no_duplicates()
    &&& forall|j: int|
        0 <= j < clients.len() ==> store.contains_key(#[trigger] clients[j]) && store[clients[j]]
            == found[j]@
    &&& forall|client: u16| #[trigger] store.contains_key(client) ==> clients.contains(client)
}

/// Whether one of the first `count` entries of `entries` is that of `client`.
spec fn visited(entries: Seq<(&u16, &Account)>, count: int, client: u16) -> bool {
    exists|i: int| 0 <= i < count && *(#[trigger] entries[i]).0 == client
}

/// Whether one of the entries of `entries` from the place `count` on is that
/// of `client`.
spec fn pending(entries: Seq<(&u16, &Account)>, count: int, client: u16) -> bool {
    exists|i: int| count <= i < entries.len() && *(#[trigger] entries[i]).0 == client
}

/// An account store: the account of every client, by the client's number.
///
/// Implement this for the storage of your choice. A failed write must leave
/// the store as it was.
pub trait AccountsRepo {
    /// The accounts that the store holds, by client.
    spec fn view(&self) -> Map<u16, AccountView>;

    /// Whether reads and writes of this store always succeed.
    spec fn never_fails() -> bool;

    /// The account of the client `id`, if there is one.
    fn get(&self, id: u16) -> (r: Result<Option<Account>, StorageError>)
        ensures
            r matches Ok(found) ==> read(found) == stored_for(self.view(), id),
            Self::never_fails() ==> r is Ok,
    ;

    /// Stores the account under its client, in place of what was there, and
    /// returns the client.
    fn save(&mut self, account: Account) -> (r: Result<u16, StorageError>)
        ensures
            r matches Ok(id) ==> id == account@.client && final(self).view() == old(
                self,
            ).view().insert(account@.client, account@),
            r is Err ==> final(self).view() == old(self).view(),
            Self::never_fails() ==> r is Ok,
    ;

    /// Every account of the store once, in no particular order.
    fn get_all(&self) -> (r: Result<Vec<Account>, StorageError>)
        ensures
            r matches Ok(found) ==> exists|clients: Seq<u16>| #[trigger]
                lists_all(self.view(), clients, found@),
            Self::never_fails() ==> r is Ok,
    ;
}

/// An account store in memory.
pub struct MemoryRepo {
    data: HashMap<u16, Account>,
}

impl MemoryRepo {
    /// An empty account store.
    pub fn new() -> (r: MemoryRepo)
        ensures
            r.view() == Map::<u16, AccountView>::empty(),
    {
        let r = MemoryRepo { data: HashMap::new() };
        assert(r.view() =~= Map::<u16, AccountView>::empty());
        r
    }
}

impl AccountsRepo for MemoryRepo {
    closed spec fn view(&self) -> Map<u16, AccountView> {
        self.data@.map_values(|account: Account| account@)
    }

    open spec fn never_fails() -> bool {
        true
    }

    fn get(&self, id: u16) -> (r: Result<Option<Account>, StorageError>) {
        broadcast use vstd::std_specs::hash::group_hash_axioms;

        match self.data.get(&id) {
            Some(account) => Ok(Some(*account)),
            None => Ok(None),
        }
    }

    fn save(&mut self, account: Account) -> (r: Result<u16, StorageError>) {
        broadcast use vstd::std_specs::hash::group_hash_axioms;

        self.data.insert(account.client, account);
        assert(self.view() =~= old(self).view().insert(account@.client, account@));
        Ok(account.client)
    }

    fn get_all(&self) -> (r: Result<Vec<Account>, StorageError>) {
        broadcast use vstd::std_specs::hash::group_hash_axioms;

        let mut found: Vec<Account> = Vec::new();
        let ghost mut clients: Seq<u16> = Seq::empty();
        for entry in it: self.data.iter()
            invariant
                it.seq().no_duplicates(),
                forall|i: int|
                    0 <= i < it.seq().len() ==> self.data@.contains_key(*(#[trigger] it.seq()[i]).0)
                        && self.data@[*it.seq()[i].0] == *it.seq()[i].1,
                forall|client: u16| #[trigger]
                    self.data@.contains_key(client) ==> it.seq().contains(
                        (&client, &self.data@[client]),
                    ),
                clients.len() == found.len(),
                clients.no_duplicates(),
                forall|j: int|
                    0 <= j < clients.len() ==> self.data@.contains_key(#[trigger] clients[j])
                        && self.data@[clients[j]] == found[j] && visited(
                        it.seq(),
                        it.index(),
                        clients[j],
                    ),
                forall|client: u16| #[trigger]
                    self.data@.contains_key(client) ==> clients.contains(client) || pending(
                        it.seq(),
                        it.index(),
                        client,
                    ),
        {
            let (client, account) = entry;
            let ghost before = clients;
            proof {
                let n = it.index();
                assert forall|j: int| 0 <= j < clients.len() implies clients[j] != *client by {
                    if clients[j] == *client {
                        let i = choose|i: int|
                            0 <= i < n && *(#[trigger] it.seq()[i]).0 == clients[j];
                        assert(it.seq()[i] == it.seq()[n]);
                    }
                }
                clients = clients.push(*client);
                assert(clients[clients.len() - 1] == *client);
            }
            found.push(*account);
            proof {
                let n = it.index();
                assert forall|j: int| 0 <= j < clients.len() implies visited(
                    it.seq(),
                    n + 1,
                    #[trigger] clients[j],
                ) by {
                    if clients[j] != *client {
                        let i = choose|i: int|
                            0 <= i < n && *(#[trigger] it.seq()[i]).0 == clients[j];
                        assert(0 <= i < n + 1);
                    } else {
                        assert(*it.seq()[n].0 == clients[j]);
                    }
                }
                assert forall|other: u16| #[trigger]
                    self.data@.contains_key(other) implies clients.contains(other) || pending(
                    it.seq(),
                    n + 1,
                    other,
                ) by {
                    if before.contains(other) {
                        let j = choose|j: int| 0 <= j < before.len() && before[j] == other;
                        assert(clients[j] == other);
                    } else {
                        let i = choose|i: int|
                            n <= i < it.seq().len() && *(#[trigger] it.seq()[i]).0 == other;
                        if i == n {
                            assert(clients[clients.len() - 1] == other);
                        }
                    }
                }
            }
        }
        let ghost listed = found@;
        let r: Result<Vec<Account>, StorageError> = Ok(found);
        assert(lists_all(self.view(), clients, listed) && r->Ok_0@ == listed);
        r
    }
}

} // verus!
