//! Transactional mutation layer of a version-control storage engine.
//!
//! A [`transaction::Transaction`] is opened on an immutable repository
//! snapshot, works on private copies of the view and of the index, writes
//! objects to the repository's one store, which it is handed, and ends in
//! exactly one of `commit` and `discard`.

pub mod checkout;
pub mod commit_builder;
pub mod conflicts;
pub mod evolution;
pub mod guarantees;
pub mod objects;
pub mod operation;
pub mod repo;
pub mod repo_view;
pub mod settings;
pub mod store;
pub mod transaction;
