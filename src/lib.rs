//! Loading of security advisory records into a relational store.
//!
//! `osv` holds the typed record model, `discover` picks the candidate
//! documents, `normalize` derives the rows that the store persists,
//! `pipeline` groups parse outcomes into batches, and `store` is a verified
//! in-memory model of the store's key and all-or-nothing batch rules, used
//! by the tests rather than by the program.
pub mod osv;
pub mod normalize;
pub mod pipeline;
pub mod store;
pub mod discover;
