//! Pack building for a collection of tokens.
//!
//! Tokens are merged into a leader token, which gains their experience, their
//! rank score and their media; merged members can later be moved from one
//! leader to another. The crate holds the bookkeeping of both operations and
//! the queries over it. It performs no input or output: every operation takes
//! the ledger and the registry's answers as values and returns the requests
//! that the host has to carry out.

pub mod contract;
pub mod decimal;
pub mod error;
pub mod keymap;
pub mod laws;
pub mod merge;
pub mod metadata;
pub mod msg;
pub mod progression;
pub mod query;
pub mod relocate;
pub mod response;
pub mod seqs;
pub mod state;
pub mod viewing_key;

