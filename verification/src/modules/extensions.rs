//! Extensions: batch inserts in transactions, array-mode and column-cached
//! queries, prepared statements, and a pool of worker connections.

pub mod cache;
pub mod queries;
pub mod prepared;
pub mod batch;
pub mod pool;
