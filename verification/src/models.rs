//! The rows of the index, one type for each table.

use vstd::prelude::*;
use std::time::SystemTime;

verus! {

/// A point in time as the system clock gives it. Nothing is read from it:
/// it is stored and handed back.
#[verifier::external_type_specification]
#[verifier::external_body]
pub struct ExSystemTime(SystemTime);

/// A capability that the store has issued, under the number by which the
/// other tables refer to it.
#[derive(Debug, PartialEq, Eq)]
pub struct Cap {
    pub fileid: i32,
    pub filecap: String,
}

/// A directory that was stored: the hash of its manifest and the capability
/// the store gave for it.
#[derive(Debug, PartialEq, Eq)]
pub struct Directory {
    pub dirhash: i64,
    pub dircap: String,
    pub last_uploaded: SystemTime,
}

/// When a capability was last obtained by an upload.
#[derive(Debug, PartialEq, Eq)]
pub struct LastUpload {
    pub fileid: i32,
    pub last_uploaded: SystemTime,
}

/// A local file as it was when it was stored, and the capability it got.
#[derive(Debug, PartialEq, Eq)]
pub struct LocalFile {
    pub path: String,
    pub size: i64,
    pub mtime: i64,
    pub ctime: i64,
    pub fileid: i32,
}

/// The version of the index's layout.
#[derive(Debug, PartialEq, Eq)]
pub struct Version {
    pub version: i32,
}

/// The clock's reading, `std::time::SystemTime::now`. Nothing is promised
/// of it: two readings may differ.
#[verifier::external_body]
pub(crate) fn now() -> SystemTime {
    SystemTime::now()
}

} // verus!
