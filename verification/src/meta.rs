//! What the walk reads from the file system about one entry.

use vstd::prelude::*;

verus! {

/// The kind of a directory entry. A link is never followed, so it is a kind
/// of its own.
#[derive(Clone, Copy, Debug, PartialEq, Eq)]
pub enum FileKind {
    Symlink,
    File,
    Dir,
    Other,
}

/// The metadata of an entry: its kind, its length in bytes, and the times of
/// its creation and last modification in whole seconds from the Unix epoch,
/// each where the file system reports it.
#[derive(Clone, Copy, Debug, PartialEq, Eq)]
pub struct FileInfo {
    pub kind: FileKind,
    pub len: u64,
    pub created: Option<i64>,
    pub modified: Option<i64>,
}

/// A time as the index keeps it: zero where none is reported.
pub open spec fn index_time(t: Option<i64>) -> i64 {
    match t {
        Some(s) => s,
        None => 0,
    }
}

/// A time as a manifest carries it: absent where none is reported, and
/// where it lies before the epoch.
pub open spec fn manifest_time(t: Option<i64>) -> Option<u64> {
    match t {
        Some(s) => if s >= 0 {
            Some(s as u64)
        } else {
            None
        },
        None => None,
    }
}

impl FileInfo {
    /// The length as the index keeps it: the same 64 bits, read as signed.
    pub open spec fn index_size(self) -> i64 {
        self.len as i64
    }

    /// The length as the index keeps it.
    pub fn size(&self) -> (s: i64)
        ensures
            s == self.index_size(),
    {
        #[verifier::truncate]
        (self.len as i64)
    }

    /// The creation time as the index keeps it.
    pub fn ctime(&self) -> (t: i64)
        ensures
            t == index_time(self.created),
    {
        match self.created {
            Some(s) => s,
            None => 0,
        }
    }

    /// The modification time as the index keeps it.
    pub fn mtime(&self) -> (t: i64)
        ensures
            t == index_time(self.modified),
    {
        match self.modified {
            Some(s) => s,
            None => 0,
        }
    }
}

/// A time as a manifest carries it.
pub fn since_epoch(t: Option<i64>) -> (r: Option<u64>)
    ensures
        r == manifest_time(t),
{
    match t {
        Some(s) => if s >= 0 {
            Some(s as u64)
        } else {
            None
        },
        None => None,
    }
}

} // verus!
