//! Archiving of finished recordings: when a file is complete, what its
//! archive copy is called, and which files were already handled.

pub mod archiver;
pub mod error;
pub mod ledger;
pub mod naming;
pub mod pipeline;
pub mod resolver;
pub mod sidecar;
pub mod stability;
pub mod text;
pub mod timestamp;
