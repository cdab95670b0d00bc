//! Core of an incrementally maintained dataflow store: keyed state with
//! partial materialization, replay bookkeeping, provenance counters, the
//! domain executor's state machine and the channel coordinator.

pub mod chain;
pub mod channel;
pub mod data;
pub mod domain;
pub mod error;
pub mod executor;
pub mod graph;
pub mod ops;
pub mod parse;
pub mod provenance;
pub mod replay;
pub mod server;
pub mod soup;
pub mod state;
pub mod votes;
