//! Incremental backup of a directory tree into a Tahoe-LAFS grid.
//!
//! The crate holds the three cooperating parts of the backup agent as
//! verified code: the reuse index ([`backupdb`]), the directory manifest with
//! its content hash and the store protocol ([`client`]), and the decisions of
//! the tree walk ([`pipeline`]). Everything that touches the disk or the
//! network is left to the caller, which hands in plain values and carries
//! out the requests that come back.

pub mod backupdb;
pub mod client;
pub mod errors;
pub mod meta;
pub mod models;
pub mod pipeline;
pub mod table;
pub mod text;
