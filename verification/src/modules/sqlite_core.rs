//! Core database functionality: the worker protocol, the database session
//! and the JavaScript binding table.

pub mod text;
pub mod error;
pub mod protocol;
pub mod database;
pub mod worker;
pub mod blobs;
pub mod bindings;
