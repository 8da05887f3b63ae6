//! A small account-based ledger that peers exchange signed transactions for.
//!
//! The modules hold the verified parts of the node: the data that travels
//! between peers and the account ledger (`structures`), key handling, hashing
//! and signatures (`crypto`), the node state and its message handler
//! (`blockchain`), duplicate suppression and message construction for flooding
//! (`network`), the single-threaded connection loop's decisions
//! (`network2`), and the console command language (`frontend`).

pub mod structures;
pub mod crypto;
pub mod blockchain;
pub mod network;
pub mod network2;
pub mod frontend;
