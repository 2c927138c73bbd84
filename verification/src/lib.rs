//! A local-first wallet for decentralized identifiers: one signing identity,
//! named connections to peers, sealed envelopes between them, and the
//! bookkeeping for issuing, presenting and verifying credentials.

pub mod errors;
pub mod text;
pub mod search;
pub mod paths;
pub mod json;
pub mod store;
pub mod keys;
pub mod identity;
pub mod envelope;
pub mod registry;
pub mod keystore;
pub mod credential;
pub mod verification;
pub mod wallet;
pub mod command;
