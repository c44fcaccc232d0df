//! An iterator adapter that maps items on a pool of worker threads and hands
//! the results back in the order of their inputs.

pub mod reorder;
mod pool;
pub mod batch;
pub mod map;
pub mod laws;
