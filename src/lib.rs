//! A minimal ledger runtime: the ordered transaction-extension pipeline, the
//! state-transition executor, the block lifecycle state machine and the
//! genesis state builder, each with its contract proved.

pub mod weight;
pub mod state;
pub mod transaction;
pub mod extension;
pub mod executor;
pub mod runtime;
pub mod laws;
pub mod genesis;
pub mod cli;
pub mod template;
pub mod chain_spec;
pub mod version;
