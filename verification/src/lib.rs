//! The identity lifecycle of a notes service.
//!
//! A caller starts as a guest, may register and sign in under a user name,
//! keeps a session alive with a pair of tokens, and may delete the account
//! again. This crate holds the rules of that lifecycle and proves them:
//!
//! - `security`: passwords are hashed and checked, tokens are issued, read
//!   and verified, and the bearer token is taken from a request header.
//! - `account_entity`, `account_dto`, `security_data`, `error_data`: the
//!   records that travel between the parts.
//! - `account_database`: what the lifecycle asks of the account store, what
//!   the store has to answer, and a store in memory that answers so.
//! - `account_interaction`: guest provisioning, registration, sign-in,
//!   refresh and deletion, each as a conversation with the store, and what
//!   each of them comes to.
//! - `account_api`, `middleware`: which routes are open, and the guard in
//!   front of all others.
//! - `notes_data`, `notes_data_dummy`: notes made up for the listing.
//!
//! Hashing, signing, random numbers and the clock are left to `argon2`,
//! `jsonwebtoken`, `uuid`, `rand` and `chrono`. Each call into them stands in
//! a private function of its own, whose contract says what is believed of
//! it. Storage and HTTP are no business of this crate.

pub mod account_api;
pub mod account_database;
pub mod account_dto;
pub mod account_entity;
pub mod account_interaction;
pub mod error_data;
pub mod middleware;
pub mod notes_data;
pub mod notes_data_dummy;
pub mod security;
pub mod security_data;
pub mod text;
