//! Segmented concurrent downloader core: capability probing, range
//! partitioning, positioned writes into a shared output model, error
//! aggregation, and the bounded producer/consumer pipeline handoff.
pub mod channel;
pub mod config;
pub mod fetch;
pub mod ident;
pub mod link;
pub mod media;
pub mod num;
pub mod outcome;
pub mod output;
pub mod pipeline;
pub mod plan;
pub mod probe;
pub mod text;
pub mod transform;

