//! A verified core for a minimal Bitcoin regtest workflow: provisioning two
//! wallets, generating spendable coinbase funds, executing a single payment,
//! and reconstructing the lineage of that payment (funding source, payment
//! output, change output, fee, confirming block) into a ten-line report.
//!
//! All chain data enters the library as plain values (byte hashes, satoshi
//! amounts, address strings); the JSON-RPC transport that fetches them is an
//! external collaborator and lives outside the library.

pub mod types;
pub mod provision;
pub mod bootstrap;
pub mod payment;
pub mod resolve;
pub mod render;
