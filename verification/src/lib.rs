//! A ledger-resident voting engine.
//!
//! The crate models a small voting system whose state lives in named,
//! deterministically-addressed records: a [`records::Poll`] per contest, a
//! [`records::Candidate`] per `(poll, name)` pair, and a
//! [`records::VoterRecord`] per `(poll, voter)` pair, the last acting as a
//! vote-once receipt.
//!
//! [`engine`] holds the state-transition logic itself: the validation and the
//! mutation each operation performs once the surrounding host has resolved
//! the records it touches. [`ledger`] models that host: a record store keyed
//! by the seed tuples, where creating a record is an atomic insert-if-absent.
//! [`laws`] states and proves what the two layers guarantee together.

pub mod counting;
pub mod engine;
pub mod errors;
pub mod laws;
pub mod ledger;
pub mod records;
