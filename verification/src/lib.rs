//! Verified core of a measurement-store tag migration tool.
//!
//! The library reconstructs typed time-series points from untyped,
//! flattened key/value rows, using a separately fetched schema catalog;
//! rewrites one tag; and renders the point back into a write request.
//! Network transport, argument parsing and logging live outside the
//! library and talk to it through plain values.

pub mod driver;
pub mod laws;
pub mod point;
pub mod request;
pub mod schema;
pub mod timefmt;
pub mod value;
