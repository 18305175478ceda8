//! In-memory core of a small CRUD backend for two related entities:
//! rustaceans (authors) and the crates they own.
//!
//! The crate is split in three layers, mirroring a classic REST backend:
//!
//! - [`models`] holds the plain record shapes and their creation payloads;
//! - [`repositories`] is the storage port: per-table find / find_multiple /
//!   create / update / delete operations over an in-memory table, each with
//!   an exact contract;
//! - [`routes`] maps each REST endpoint onto exactly one repository call and
//!   fixes the HTTP status code and body for every outcome;
//! - [`json`] is the wire encoding: the exact JSON text of records,
//!   collections and error bodies.
//!
//! [`laws`] states and proves the cross-operation guarantees (round trips,
//! listing membership, immutability of server-assigned fields).
//!
//! All I/O — the HTTP listener, the system clock, the wire encoding — lives
//! outside this crate; callers hand in plain values (ids, payloads, a
//! timestamp for the current time) and get plain values back.

pub mod json;
pub mod laws;
pub mod models;
pub mod repositories;
pub mod routes;
