//! KRC-20 token inscriptions on Kaspa: the operation payloads (deploy, mint, transfer), the
//! inscription envelope and the commit and reveal transactions that carry it, and the scan
//! that finds inscriptions in signature scripts.

pub mod constants;
pub mod detect;
pub mod envelope;
pub mod operations;
pub mod optypes;
pub mod round_trip;
pub mod script;
pub mod transactions;
