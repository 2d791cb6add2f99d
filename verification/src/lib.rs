//! A conflict-aware parallel transaction scheduler and block assembler
//! for an account-based ledger. Pending transactions are admitted to a
//! bounded, deduplicated pool; a batch is partitioned into ordered,
//! internally conflict-free groups by declared read/write sets; the
//! groups execute against the ledger with one receipt per transaction;
//! and the results are assembled into hash-chained blocks under a gas
//! budget. The surrounding feature modules — bridging, an exchange pool,
//! governance, tokens, rollups, confidential contracts and a proof-
//! carrying virtual machine — share the same verified foundations.

pub mod aes;
pub mod benchmark;
pub mod block;
pub mod bridge;
pub mod clock;
pub mod contract;
pub mod dex;
pub mod executor;
pub mod governance;
pub mod hashing;
pub mod marketplace;
pub mod mempool;
pub mod privacy;
pub mod private_contracts;
pub mod producer;
pub mod rollups;
pub mod scheduler;
pub mod state;
pub mod text;
pub mod token;
pub mod transaction;
pub mod upgrade;
pub mod wasm;
pub mod zkvm;
