//! A durable store of votes.
//!
//! A vote binds a voter, a candidate, a timestamp and a proof token under an
//! id that the store gives out. The store keeps a counter for the ids and a
//! map of records in two regions of one stable memory, so that both outlive
//! the process. [`store::VoteStore`] holds the operations, [`model`] says
//! what they do, [`record`] how a vote becomes the bytes of a record, and
//! [`stable`] what is taken on trust of the memory.

pub mod layout;
pub mod model;
pub mod record;
pub mod stable;
pub mod store;
pub mod text;
pub mod vote;

pub use stable::StableMemory;
pub use store::VoteStore;
pub use vote::{validate_candidate, Error, Vote, VotePayload};
