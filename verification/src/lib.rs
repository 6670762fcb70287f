//! Core of a small multi-user todo service: a keyed user store with atomic
//! read/insert/mutate operations, a password hasher, and an authentication
//! gate that checks a claimed identity against a stored digest. HTTP routing
//! and serialization live outside this crate.

pub mod hashing;
pub mod laws;
pub mod models;
pub mod service;
pub mod store;
