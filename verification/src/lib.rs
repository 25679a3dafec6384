//! Indexing and pruning of per-epoch data.
//!
//! Two handlers turn the last checkpoint of an epoch into rows: [`epoch_ends`] for the epoch that
//! ends there, [`epoch_starts`] for the one that begins after it. [`pruner`] decides which data is
//! old enough to be deleted, and [`transitions`], [`rounds`] and [`laws`] state what it guarantees, of
//! each event, of each round, and over many rounds.
#![allow(unused_imports)]

pub mod cast;
pub mod checkpoint;
pub mod encoding;
pub mod epoch_ends;
pub mod epoch_filter;
pub mod epoch_starts;
pub mod error;
pub mod laws;
pub mod logging;
pub mod pending;
pub mod prune_task;
pub mod pruner;
pub mod rounds;
pub mod transitions;
pub mod watermark;
