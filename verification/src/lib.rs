//! Shard construction and trace generation core for a zero-knowledge
//! virtual-machine prover: derives sizing and concurrency options from the
//! host, splits a captured event stream into bounded shards, and renders
//! shards into constraint-checked trace tables.

pub mod opts;
pub mod chip;
pub mod emulator;
pub mod pipeline;
pub mod split;
pub mod target;
