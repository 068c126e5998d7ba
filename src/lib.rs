//! Account records kept in hashes of a key-value store, served behind
//! bearer-token authentication.

pub mod auth;
pub mod service;
pub mod store;
