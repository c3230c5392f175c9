//! A verified payments engine.
//!
//! The engine takes deposit, withdrawal, dispute, resolve and chargeback
//! commands one at a time and keeps, for every client, an account with its
//! available and held funds and its lock.
//!
//! * [`amount`] holds the exact decimal quantity that every balance is made of.
//! * [`transactions`] holds the life cycle of a transaction and the ledger.
//! * [`accounts`] holds the balance rules and the account store.
//! * [`payments`] ties the two together, one command at a time.
pub mod amount;
pub mod storage;
pub mod transactions;
pub mod accounts;
pub mod payments;
