//! The indexing pipeline: what is made of the blocks that the state-history
//! plugin sends, and in what order it is written.

pub mod abis;
pub mod batch;
pub mod batcher;
pub mod complete;
pub mod contents;
pub mod coverage;
pub mod docs;
pub mod effects;
pub mod pipeline;
pub mod processor;
pub mod progress;
pub mod sending;
pub mod units;
