//! A shared account ledger whose transitions are executed by a proving
//! environment, and the protocol by which the resulting receipts are checked.
pub mod codec;
pub mod commit;
pub mod error;
pub mod ledger;
pub mod maintainer;
pub mod message;
pub mod program;
pub mod receipt;
pub mod service;
