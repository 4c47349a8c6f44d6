//! Live per-interface network throughput: sampling counter deltas into exact
//! rates, ranking interfaces by combined traffic, and rendering the table text.

pub mod rate;
pub mod sample;
pub mod rank;
pub mod screen;
pub mod monitor;
