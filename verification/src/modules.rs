//! Module organization: `sqlite_core` holds the session, worker protocol and
//! bindings; `extensions` holds batch inserts, optimized queries, prepared
//! statements and the connection pool.

pub mod sqlite_core;
pub mod extensions;
