//! # sqlite-wasm
//!
//! The verified core of a SQLite-in-the-browser client. The browser side
//! (a dedicated Web Worker running the official `sqlite3-worker1.js`, OPFS
//! storage, `wasm-bindgen` exports) is driven from `app/`; this library holds
//! every decision that client makes: the session state (open database id and
//! request counter), the shape of each command sent to the worker, how replies
//! are matched and read back, batch transactions, prepared statement and
//! column caches, and the connection pool.
//!
//! Values that only travel through the library (bound SQL parameters, result
//! cells, database ids handed out by the worker, worker handles) are generic
//! parameters: the library never inspects them.

pub mod modules;

pub use modules::extensions::batch::{insert_batch, insert_batch_chunked};
pub use modules::extensions::pool::ConnectionPool;
pub use modules::extensions::prepared::PreparedStatement;
pub use modules::extensions::queries::{convert_arrays_to_objects, query_array, query_optimized};
pub use modules::sqlite_core::database::{
    close, db_id, exec, get_db_uid, is_db_open, is_open, next_message_id, open, query, Database,
};
