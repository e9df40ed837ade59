//! Bookkeeping for a multi-player adventure-voting game: a registry of named
//! games, each with a shared prize pool, per-adventure vote ledgers, a tally
//! engine and the phase rules that take a game from creation to its end.
//!
//! Every executable function states its result over the mathematical model in
//! [`model`]; the invariants that every transition keeps are proved in [`laws`].

pub mod audit;
pub mod contract;
pub mod error;
pub mod game;
pub mod invariants;
pub mod laws;
pub mod ledger;
pub mod model;
pub mod msg;
pub mod names;
pub mod rules;
pub mod state;
pub mod tally;
