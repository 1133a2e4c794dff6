//! User accounts behind bearer tokens: password hashing, token issue and
//! validation, the request guard, an in-memory user store and the account
//! handlers that drive them.
pub mod account;
pub mod auth;
pub mod config;
pub mod decimal;
pub mod errors;
pub mod hash;
pub mod jwt;
pub mod store;
pub mod text;
