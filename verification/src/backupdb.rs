//! The reuse index: which local files and which directories have already
//! been stored, and under which capability.
//!
//! The index has four tables. `caps` numbers the capabilities; `local_files`
//! binds a path, with the size and times the file had, to one of them;
//! `last_upload` records when each was last obtained; `directories` binds
//! the hash of a manifest to a directory capability. [`IndexView`] is the
//! index as four maps, and every operation is stated as a function on it.

use vstd::prelude::*;
use vstd::string::*;
use std::time::SystemTime;
use crate::errors::{Error, ErrorKind, KindView};
use crate::models::{now, Cap, Directory, LastUpload, LocalFile};
use crate::table::{as_map, has_key, keys_distinct, lemma_absent, lemma_push, lemma_remove, lemma_row};

verus! {

/// What the index remembers of a local file.
pub struct FileRow {
    pub size: i64,
    pub mtime: i64,
    pub ctime: i64,
    pub fileid: int,
}

/// What the index remembers of a stored directory.
pub struct DirRow {
    pub dircap: Seq<char>,
    pub last_uploaded: SystemTime,
}

/// The index as four maps.
pub struct IndexView {
    /// Number to capability.
    pub caps: Map<int, Seq<char>>,
    /// Path to the file's record.
    pub files: Map<Seq<char>, FileRow>,
    /// Manifest hash to the directory's record.
    pub dirs: Map<i64, DirRow>,
    /// Number of a capability to the time of its last upload.
    pub uploads: Map<int, SystemTime>,
}

impl IndexView {
    /// `m` is the largest number in use.
    pub open spec fn is_top(self, m: int) -> bool {
        self.caps.dom().contains(m) && forall|k: int|
            self.caps.dom().contains(k) ==> k <= m
    }

    /// No capability is recorded.
    pub open spec fn no_caps(self) -> bool {
        forall|k: int| !self.caps.dom().contains(k)
    }

    /// What holds of every index: a file and an upload time refer to a
    /// recorded capability, no capability is recorded twice, and the
    /// numbers in use have a largest one that fits in 32 bits.
    pub open spec fn wf(self) -> bool {
        &&& forall|p: Seq<char>| #[trigger]
            self.files.dom().contains(p) ==> self.caps.dom().contains(self.files[p].fileid)
        &&& forall|id: int| #[trigger]
            self.uploads.dom().contains(id) ==> self.caps.dom().contains(id)
        &&& forall|a: int, b: int|
            self.caps.dom().contains(a) && self.caps.dom().contains(b) && self.caps[a]
                == self.caps[b] ==> a == b
        &&& forall|k: int| #[trigger] self.caps.dom().contains(k) ==> i32::MIN <= k <= i32::MAX
        &&& self.no_caps() || exists|m: int| self.is_top(m)
    }

    /// The capability `cap` is recorded.
    pub open spec fn knows(self, cap: Seq<char>) -> bool {
        exists|id: int| self.caps.dom().contains(id) && #[trigger] self.caps[id] == cap
    }

    /// The number under which `cap` is recorded.
    pub open spec fn id_of(self, cap: Seq<char>) -> int {
        choose|id: int| self.caps.dom().contains(id) && #[trigger] self.caps[id] == cap
    }

    /// The number that the next new capability gets: one more than the
    /// largest in use, and 1 in an index without capabilities.
    pub open spec fn next_id(self) -> int {
        if self.no_caps() {
            1
        } else {
            (choose|m: int| self.is_top(m)) + 1
        }
    }

    /// `cap` can be bound to a file: it is recorded, or there is a number
    /// left for it.
    pub open spec fn can_add(self, cap: Seq<char>) -> bool {
        self.knows(cap) || self.next_id() <= i32::MAX
    }

    /// The number that `cap` has once it is bound to a file.
    pub open spec fn id_for(self, cap: Seq<char>) -> int {
        if self.knows(cap) {
            self.id_of(cap)
        } else {
            self.next_id()
        }
    }

    /// The record of `path` says exactly this size and these times.
    pub open spec fn matches(self, path: Seq<char>, size: i64, ctime: i64, mtime: i64) -> bool {
        &&& self.files.dom().contains(path)
        &&& self.files[path].size == size
        &&& self.files[path].ctime == ctime
        &&& self.files[path].mtime == mtime
    }

    /// The capability to reuse for `path`: the recorded one, if the record
    /// says exactly this size and these times.
    pub open spec fn lookup(self, path: Seq<char>, size: i64, ctime: i64, mtime: i64) -> Option<
        Seq<char>,
    > {
        if self.matches(path, size, ctime, mtime) {
            Some(self.caps[self.files[path].fileid])
        } else {
            None
        }
    }

    /// The index after a lookup: a record of `path` that says anything else
    /// is gone, and nothing else has changed.
    pub open spec fn after_check(self, path: Seq<char>, size: i64, ctime: i64, mtime: i64) -> Self {
        if self.files.dom().contains(path) && !self.matches(path, size, ctime, mtime) {
            IndexView { files: self.files.remove(path), ..self }
        } else {
            self
        }
    }

    /// The index after `path` was bound to `cap` at the time `at`.
    pub open spec fn with_file(
        self,
        cap: Seq<char>,
        path: Seq<char>,
        size: i64,
        ctime: i64,
        mtime: i64,
        at: SystemTime,
    ) -> Self {
        let id = self.id_for(cap);
        IndexView {
            caps: self.caps.insert(id, cap),
            files: self.files.insert(path, FileRow { size, mtime, ctime, fileid: id }),
            dirs: self.dirs,
            uploads: self.uploads.insert(id, at),
        }
    }

    /// The directory capability recorded for a manifest hash.
    pub open spec fn dir_cap(self, dirhash: i64) -> Option<Seq<char>> {
        if self.dirs.dom().contains(dirhash) {
            Some(self.dirs[dirhash].dircap)
        } else {
            None
        }
    }

    /// The index after a directory was recorded at the time `at`. A hash
    /// that is already recorded keeps its capability.
    pub open spec fn with_dir(self, dirhash: i64, cap: Seq<char>, at: SystemTime) -> Self {
        if self.dirs.dom().contains(dirhash) {
            self
        } else {
            IndexView {
                dirs: self.dirs.insert(dirhash, DirRow { dircap: cap, last_uploaded: at }),
                ..self
            }
        }
    }

    /// What a run can see of the index: for each path the size, the times
    /// and the capability, and for each manifest hash the capability.
    pub open spec fn seen(self) -> (Map<Seq<char>, (i64, i64, i64, Seq<char>)>, Map<i64, Seq<char>>) {
        (
            Map::new(
                |p: Seq<char>| self.files.dom().contains(p),
                |p: Seq<char>|
                    (
                        self.files[p].size,
                        self.files[p].ctime,
                        self.files[p].mtime,
                        self.caps[self.files[p].fileid],
                    ),
            ),
            Map::new(|h: i64| self.dirs.dom().contains(h), |h: i64| self.dirs[h].dircap),
        )
    }
}

/// The largest key of a table, or 0 for a table without rows.
pub open spec fn max_key<V>(rows: Seq<(int, V)>) -> int
    decreases rows.len(),
{
    if rows.len() == 0 {
        0
    } else {
        let rest = max_key(rows.drop_last());
        if rows.len() == 1 || rows.last().0 > rest {
            rows.last().0
        } else {
            rest
        }
    }
}

/// `max_key` is a key of the table, and no key is larger.
pub proof fn lemma_max_key<V>(rows: Seq<(int, V)>)
    requires
        rows.len() > 0,
    ensures
        has_key(rows, max_key(rows)),
        forall|i: int| 0 <= i < rows.len() ==> (#[trigger] rows[i]).0 <= max_key(rows),
    decreases rows.len(),
{
    let init = rows.drop_last();
    if rows.len() == 1 {
        assert(rows[0].0 == max_key(rows));
    } else {
        lemma_max_key(init);
        let j = choose|j: int| 0 <= j < init.len() && (#[trigger] init[j]).0 == max_key(init);
        assert(rows[j] == init[j]);
        assert(rows[rows.len() - 1] == rows.last());
        assert forall|i: int| 0 <= i < rows.len() implies (#[trigger] rows[i]).0 <= max_key(
            rows,
        ) by {
            if i < init.len() {
                assert(rows[i] == init[i]);
            }
        }
    }
}

/// A table of capabilities has a largest number, unless it is empty.
pub proof fn lemma_top(v: IndexView, rows: Seq<(int, Seq<char>)>)
    requires
        v.caps == as_map(rows),
    ensures
        rows.len() == 0 ==> v.no_caps(),
        rows.len() > 0 ==> v.is_top(max_key(rows)) && !v.no_caps(),
        v.no_caps() || exists|m: int| v.is_top(m),
{
    if rows.len() > 0 {
        lemma_max_key(rows);
        let m = max_key(rows);
        assert(v.caps.dom().contains(m));
        assert forall|k: int| v.caps.dom().contains(k) implies k <= m by {
            let i = choose|i: int| 0 <= i < rows.len() && (#[trigger] rows[i]).0 == k;
            assert(rows[i].0 <= m);
        }
        assert(v.is_top(m));
    }
}

/// The largest number in use is unique.
pub proof fn lemma_top_unique(v: IndexView, m: int)
    requires
        v.is_top(m),
    ensures
        !v.no_caps(),
        v.next_id() == m + 1,
{
    let c = choose|c: int| v.is_top(c);
    assert(v.is_top(c));
    assert(c <= m && m <= c);
}

/// In a well-formed index a recorded capability has one number.
pub proof fn lemma_id_of(v: IndexView, id: int)
    requires
        v.wf(),
        v.caps.dom().contains(id),
    ensures
        v.knows(v.caps[id]),
        v.id_of(v.caps[id]) == id,
        v.id_for(v.caps[id]) == id,
{
    let cap = v.caps[id];
    assert(v.caps.dom().contains(id) && v.caps[id] == cap);
    let c = v.id_of(cap);
    assert(v.caps.dom().contains(c) && v.caps[c] == cap);
}

/// The number for a new capability is not in use.
pub proof fn lemma_next_id_new(v: IndexView)
    requires
        v.wf(),
    ensures
        !v.caps.dom().contains(v.next_id()),
        i32::MIN < v.next_id(),
{
    if !v.no_caps() {
        let m = choose|m: int| v.is_top(m);
        assert(v.is_top(m));
        if v.caps.dom().contains(m + 1) {
            assert(m + 1 <= m);
        }
    }
}

/// Binding a file keeps the index well formed.
pub proof fn lemma_with_file_wf(
    v: IndexView,
    cap: Seq<char>,
    path: Seq<char>,
    size: i64,
    ctime: i64,
    mtime: i64,
    at: SystemTime,
)
    requires
        v.wf(),
        v.can_add(cap),
    ensures
        v.with_file(cap, path, size, ctime, mtime, at).wf(),
        v.with_file(cap, path, size, ctime, mtime, at).knows(cap),
        v.with_file(cap, path, size, ctime, mtime, at).id_for(cap) == v.id_for(cap),
{
    let w = v.with_file(cap, path, size, ctime, mtime, at);
    let id = v.id_for(cap);
    assert(w.caps.dom().contains(id) && w.caps[id] == cap);
    if v.knows(cap) {
        assert(v.caps.dom().contains(id) && v.caps[id] == cap);
        assert(w.caps =~= v.caps);
        if !v.no_caps() {
            let m = choose|m: int| v.is_top(m);
            assert(w.is_top(m));
        }
    } else {
        lemma_next_id_new(v);
        assert forall|a: int, b: int|
            w.caps.dom().contains(a) && w.caps.dom().contains(b) && w.caps[a]
                == w.caps[b] implies a == b by {
            if a == id && b != id {
                assert(v.caps.dom().contains(b) && v.caps[b] == cap);
            }
            if b == id && a != id {
                assert(v.caps.dom().contains(a) && v.caps[a] == cap);
            }
        }
        if v.no_caps() {
            assert(w.is_top(id));
        } else {
            let m = choose|m: int| v.is_top(m);
            assert(v.is_top(m));
            assert(w.is_top(id));
        }
    }
    assert forall|p: Seq<char>| #[trigger] w.files.dom().contains(p) implies w.caps.dom().contains(
        w.files[p].fileid,
    ) by {
        if p != path {
            assert(v.files.dom().contains(p));
        }
    }
    assert forall|k: int| #[trigger] w.uploads.dom().contains(k) implies w.caps.dom().contains(
        k,
    ) by {
        if k != id {
            assert(v.uploads.dom().contains(k));
        }
    }
    assert forall|k: int| #[trigger] w.caps.dom().contains(k) implies i32::MIN <= k
        <= i32::MAX by {
        if k != id {
            assert(v.caps.dom().contains(k));
        }
    }
    assert(w.wf());
    lemma_id_of(w, id);
}

/// Recording a directory keeps the index well formed.
pub proof fn lemma_with_dir_wf(v: IndexView, dirhash: i64, cap: Seq<char>, at: SystemTime)
    requires
        v.wf(),
    ensures
        v.with_dir(dirhash, cap, at).wf(),
{
    let w = v.with_dir(dirhash, cap, at);
    assert(w.caps == v.caps);
    assert(w.files == v.files);
    assert(w.uploads == v.uploads);
    if !v.no_caps() {
        let m = choose|m: int| v.is_top(m);
        assert(w.is_top(m));
    }
}

/// A lookup keeps the index well formed.
pub proof fn lemma_after_check_wf(v: IndexView, path: Seq<char>, size: i64, ctime: i64, mtime: i64)
    requires
        v.wf(),
    ensures
        v.after_check(path, size, ctime, mtime).wf(),
{
    let w = v.after_check(path, size, ctime, mtime);
    assert(w.caps == v.caps);
    assert(w.uploads == v.uploads);
    assert forall|p: Seq<char>| #[trigger] w.files.dom().contains(p) implies w.caps.dom().contains(
        w.files[p].fileid,
    ) by {
        assert(v.files.dom().contains(p));
    }
    if !v.no_caps() {
        let m = choose|m: int| v.is_top(m);
        assert(w.is_top(m));
    }
}


/// The rows of `caps` as pairs of key and value.
pub open spec fn cap_pairs(rows: Seq<Cap>) -> Seq<(int, Seq<char>)> {
    Seq::new(rows.len(), |i: int| (rows[i].fileid as int, rows[i].filecap@))
}

/// A row of `local_files` without its key.
pub open spec fn file_row(row: LocalFile) -> FileRow {
    FileRow { size: row.size, mtime: row.mtime, ctime: row.ctime, fileid: row.fileid as int }
}

/// The rows of `local_files` as pairs of key and value.
pub open spec fn file_pairs(rows: Seq<LocalFile>) -> Seq<(Seq<char>, FileRow)> {
    Seq::new(rows.len(), |i: int| (rows[i].path@, file_row(rows[i])))
}

/// The rows of `directories` as pairs of key and value.
pub open spec fn dir_pairs(rows: Seq<Directory>) -> Seq<(i64, DirRow)> {
    Seq::new(
        rows.len(),
        |i: int|
            (rows[i].dirhash, DirRow { dircap: rows[i].dircap@, last_uploaded: rows[i].last_uploaded }),
    )
}

/// The rows of `last_upload` as pairs of key and value.
pub open spec fn upload_pairs(rows: Seq<LastUpload>) -> Seq<(int, SystemTime)> {
    Seq::new(rows.len(), |i: int| (rows[i].fileid as int, rows[i].last_uploaded))
}

/// The four tables as maps.
pub open spec fn tables_view(
    caps: Seq<Cap>,
    local_files: Seq<LocalFile>,
    directories: Seq<Directory>,
    last_upload: Seq<LastUpload>,
) -> IndexView {
    IndexView {
        caps: as_map(cap_pairs(caps)),
        files: as_map(file_pairs(local_files)),
        dirs: as_map(dir_pairs(directories)),
        uploads: as_map(upload_pairs(last_upload)),
    }
}

/// The four tables make an index: no key occurs twice in a table, and the
/// maps they stand for are well formed.
pub open spec fn tables_valid(
    caps: Seq<Cap>,
    local_files: Seq<LocalFile>,
    directories: Seq<Directory>,
    last_upload: Seq<LastUpload>,
) -> bool {
    &&& keys_distinct(cap_pairs(caps))
    &&& keys_distinct(file_pairs(local_files))
    &&& keys_distinct(dir_pairs(directories))
    &&& keys_distinct(upload_pairs(last_upload))
    &&& tables_view(caps, local_files, directories, last_upload).wf()
}

/// The first of the rows before `upto` that has the number `id`.
fn find_cap(caps: &Vec<Cap>, id: i32, upto: usize) -> (found: Option<usize>)
    requires
        upto <= caps.len(),
    ensures
        match found {
            Some(i) => i < upto && caps[i as int].fileid == id,
            None => forall|i: int| 0 <= i < upto ==> caps[i].fileid != id,
        },
{
    let mut i: usize = 0;
    while i < upto
        invariant
            i <= upto <= caps.len(),
            forall|j: int| 0 <= j < i ==> caps[j].fileid != id,
        decreases upto - i,
    {
        if caps[i].fileid == id {
            return Some(i);
        }
        i = i + 1;
    }
    None
}

/// The first of the rows before `upto` that holds the capability `text`.
fn find_cap_text(caps: &Vec<Cap>, text: &String, upto: usize) -> (found: Option<usize>)
    requires
        upto <= caps.len(),
    ensures
        match found {
            Some(i) => i < upto && caps[i as int].filecap@ == text@,
            None => forall|i: int| 0 <= i < upto ==> caps[i].filecap@ != text@,
        },
{
    let mut i: usize = 0;
    while i < upto
        invariant
            i <= upto <= caps.len(),
            forall|j: int| 0 <= j < i ==> caps[j].filecap@ != text@,
        decreases upto - i,
    {
        if caps[i].filecap == *text {
            return Some(i);
        }
        i = i + 1;
    }
    None
}

/// The first of the rows before `upto` that is keyed by `path`.
fn find_file(files: &Vec<LocalFile>, path: &String, upto: usize) -> (found: Option<usize>)
    requires
        upto <= files.len(),
    ensures
        match found {
            Some(i) => i < upto && files[i as int].path@ == path@,
            None => forall|i: int| 0 <= i < upto ==> files[i].path@ != path@,
        },
{
    let mut i: usize = 0;
    while i < upto
        invariant
            i <= upto <= files.len(),
            forall|j: int| 0 <= j < i ==> files[j].path@ != path@,
        decreases upto - i,
    {
        if files[i].path == *path {
            return Some(i);
        }
        i = i + 1;
    }
    None
}

/// The first of the rows before `upto` that is keyed by `dirhash`.
fn find_dir(dirs: &Vec<Directory>, dirhash: i64, upto: usize) -> (found: Option<usize>)
    requires
        upto <= dirs.len(),
    ensures
        match found {
            Some(i) => i < upto && dirs[i as int].dirhash == dirhash,
            None => forall|i: int| 0 <= i < upto ==> dirs[i].dirhash != dirhash,
        },
{
    let mut i: usize = 0;
    while i < upto
        invariant
            i <= upto <= dirs.len(),
            forall|j: int| 0 <= j < i ==> dirs[j].dirhash != dirhash,
        decreases upto - i,
    {
        if dirs[i].dirhash == dirhash {
            return Some(i);
        }
        i = i + 1;
    }
    None
}

/// The first of the rows before `upto` that is keyed by `id`.
fn find_upload(uploads: &Vec<LastUpload>, id: i32, upto: usize) -> (found: Option<usize>)
    requires
        upto <= uploads.len(),
    ensures
        match found {
            Some(i) => i < upto && uploads[i as int].fileid == id,
            None => forall|i: int| 0 <= i < upto ==> uploads[i].fileid != id,
        },
{
    let mut i: usize = 0;
    while i < upto
        invariant
            i <= upto <= uploads.len(),
            forall|j: int| 0 <= j < i ==> uploads[j].fileid != id,
        decreases upto - i,
    {
        if uploads[i].fileid == id {
            return Some(i);
        }
        i = i + 1;
    }
    None
}

/// No capability stands in two rows.
pub open spec fn texts_distinct(caps: Seq<Cap>) -> bool {
    forall|i: int, j: int| 0 <= i < j < caps.len() ==> caps[i].filecap@ != caps[j].filecap@
}

/// What [`tables_valid`] asks, said of the rows: no key and no capability
/// occurs twice, and every file and every upload time names the number of a
/// row of `caps`.
pub open spec fn rows_valid(
    caps: Seq<Cap>,
    local_files: Seq<LocalFile>,
    directories: Seq<Directory>,
    last_upload: Seq<LastUpload>,
) -> bool {
    &&& keys_distinct(cap_pairs(caps))
    &&& texts_distinct(caps)
    &&& keys_distinct(file_pairs(local_files))
    &&& forall|i: int|
        0 <= i < local_files.len() ==> has_key(cap_pairs(caps), (#[trigger] local_files[i]).fileid as int)
    &&& keys_distinct(dir_pairs(directories))
    &&& keys_distinct(upload_pairs(last_upload))
    &&& forall|i: int|
        0 <= i < last_upload.len() ==> has_key(cap_pairs(caps), (#[trigger] last_upload[i]).fileid as int)
}

/// The two ways of saying that four tables make an index agree.
pub proof fn lemma_rows_valid(
    caps: Seq<Cap>,
    local_files: Seq<LocalFile>,
    directories: Seq<Directory>,
    last_upload: Seq<LastUpload>,
)
    ensures
        rows_valid(caps, local_files, directories, last_upload) == tables_valid(
            caps,
            local_files,
            directories,
            last_upload,
        ),
{
    let v = tables_view(caps, local_files, directories, last_upload);
    let cp = cap_pairs(caps);
    let fp = file_pairs(local_files);
    let up = upload_pairs(last_upload);
    if rows_valid(caps, local_files, directories, last_upload) {
        assert forall|p: Seq<char>| #[trigger] v.files.dom().contains(p) implies v.caps.dom().contains(
            v.files[p].fileid,
        ) by {
            let i = choose|i: int| 0 <= i < fp.len() && (#[trigger] fp[i]).0 == p;
            lemma_row(fp, i);
            assert(has_key(cp, local_files[i].fileid as int));
        }
        assert forall|id: int| #[trigger] v.uploads.dom().contains(id) implies v.caps.dom().contains(
            id,
        ) by {
            let i = choose|i: int| 0 <= i < up.len() && (#[trigger] up[i]).0 == id;
            assert(has_key(cp, last_upload[i].fileid as int));
        }
        assert forall|a: int, b: int|
            v.caps.dom().contains(a) && v.caps.dom().contains(b) && v.caps[a]
                == v.caps[b] implies a == b by {
            let i = choose|i: int| 0 <= i < cp.len() && (#[trigger] cp[i]).0 == a;
            let j = choose|j: int| 0 <= j < cp.len() && (#[trigger] cp[j]).0 == b;
            lemma_row(cp, i);
            lemma_row(cp, j);
            if i < j {
                assert(caps[i].filecap@ != caps[j].filecap@);
            } else if j < i {
                assert(caps[j].filecap@ != caps[i].filecap@);
            }
        }
        assert forall|k: int| #[trigger] v.caps.dom().contains(k) implies i32::MIN <= k
            <= i32::MAX by {
            let i = choose|i: int| 0 <= i < cp.len() && (#[trigger] cp[i]).0 == k;
        }
        lemma_top(v, cp);
        assert(v.wf());
    }
    if tables_valid(caps, local_files, directories, last_upload) {
        assert forall|i: int, j: int| 0 <= i < j < caps.len() implies caps[i].filecap@
            != caps[j].filecap@ by {
            lemma_row(cp, i);
            lemma_row(cp, j);
            assert(cp[i].0 != cp[j].0);
            if caps[i].filecap@ == caps[j].filecap@ {
                let a = cp[i].0;
                let b = cp[j].0;
                assert(v.caps.dom().contains(a) && v.caps.dom().contains(b));
                assert(v.caps[a] == cp[i].1 && v.caps[b] == cp[j].1);
                assert(v.caps[a] == v.caps[b]);
                assert(a == b);
            }
        }
        assert forall|i: int| 0 <= i < local_files.len() implies has_key(
            cp,
            (#[trigger] local_files[i]).fileid as int,
        ) by {
            lemma_row(fp, i);
            assert(v.files.dom().contains(fp[i].0));
        }
        assert forall|i: int| 0 <= i < last_upload.len() implies has_key(
            cp,
            (#[trigger] last_upload[i]).fileid as int,
        ) by {
            lemma_row(up, i);
            assert(v.uploads.dom().contains(up[i].0));
        }
    }
}

/// No number and no capability occurs twice in `caps`.
fn caps_valid(caps: &Vec<Cap>) -> (ok: bool)
    ensures
        ok == (keys_distinct(cap_pairs(caps@)) && texts_distinct(caps@)),
{
    let ghost cp = cap_pairs(caps@);
    let mut j: usize = 0;
    while j < caps.len()
        invariant
            j <= caps.len(),
            cp == cap_pairs(caps@),
            forall|a: int, b: int| 0 <= a < b < j ==> cp[a].0 != cp[b].0,
            forall|a: int, b: int| 0 <= a < b < j ==> caps[a].filecap@ != caps[b].filecap@,
        decreases caps.len() - j,
    {
        match find_cap(caps, caps[j].fileid, j) {
            Some(i) => {
                assert(cp[i as int].0 == cp[j as int].0);
                return false;
            },
            None => {},
        }
        match find_cap_text(caps, &caps[j].filecap, j) {
            Some(i) => {
                assert(caps[i as int].filecap@ == caps[j as int].filecap@);
                return false;
            },
            None => {},
        }
        j = j + 1;
    }
    true
}

/// No path occurs twice in `files`, and every row names a row of `caps`.
fn files_valid(files: &Vec<LocalFile>, caps: &Vec<Cap>) -> (ok: bool)
    ensures
        ok == (keys_distinct(file_pairs(files@)) && forall|i: int|
            0 <= i < files.len() ==> has_key(cap_pairs(caps@), (#[trigger] files[i]).fileid as int)),
{
    let ghost fp = file_pairs(files@);
    let ghost cp = cap_pairs(caps@);
    let mut j: usize = 0;
    while j < files.len()
        invariant
            j <= files.len(),
            fp == file_pairs(files@),
            cp == cap_pairs(caps@),
            forall|a: int, b: int| 0 <= a < b < j ==> fp[a].0 != fp[b].0,
            forall|a: int| 0 <= a < j ==> has_key(cp, (#[trigger] files[a]).fileid as int),
        decreases files.len() - j,
    {
        match find_file(files, &files[j].path, j) {
            Some(i) => {
                assert(fp[i as int].0 == fp[j as int].0);
                return false;
            },
            None => {},
        }
        match find_cap(caps, files[j].fileid, caps.len()) {
            Some(c) => {
                assert(cp[c as int].0 == files[j as int].fileid);
            },
            None => {
                assert(!has_key(cp, files[j as int].fileid as int));
                return false;
            },
        }
        j = j + 1;
    }
    true
}

/// No hash occurs twice in `dirs`.
fn dirs_valid(dirs: &Vec<Directory>) -> (ok: bool)
    ensures
        ok == keys_distinct(dir_pairs(dirs@)),
{
    let ghost dp = dir_pairs(dirs@);
    let mut j: usize = 0;
    while j < dirs.len()
        invariant
            j <= dirs.len(),
            dp == dir_pairs(dirs@),
            forall|a: int, b: int| 0 <= a < b < j ==> dp[a].0 != dp[b].0,
        decreases dirs.len() - j,
    {
        match find_dir(dirs, dirs[j].dirhash, j) {
            Some(i) => {
                assert(dp[i as int].0 == dp[j as int].0);
                return false;
            },
            None => {},
        }
        j = j + 1;
    }
    true
}

/// No number occurs twice in `uploads`, and every row names a row of
/// `caps`.
fn uploads_valid(uploads: &Vec<LastUpload>, caps: &Vec<Cap>) -> (ok: bool)
    ensures
        ok == (keys_distinct(upload_pairs(uploads@)) && forall|i: int|
            0 <= i < uploads.len() ==> has_key(
                cap_pairs(caps@),
                (#[trigger] uploads[i]).fileid as int,
            )),
{
    let ghost up = upload_pairs(uploads@);
    let ghost cp = cap_pairs(caps@);
    let mut j: usize = 0;
    while j < uploads.len()
        invariant
            j <= uploads.len(),
            up == upload_pairs(uploads@),
            cp == cap_pairs(caps@),
            forall|a: int, b: int| 0 <= a < b < j ==> up[a].0 != up[b].0,
            forall|a: int| 0 <= a < j ==> has_key(cp, (#[trigger] uploads[a]).fileid as int),
        decreases uploads.len() - j,
    {
        match find_upload(uploads, uploads[j].fileid, j) {
            Some(i) => {
                assert(up[i as int].0 == up[j as int].0);
                return false;
            },
            None => {},
        }
        match find_cap(caps, uploads[j].fileid, caps.len()) {
            Some(c) => {
                assert(cp[c as int].0 == uploads[j as int].fileid);
            },
            None => {
                assert(!has_key(cp, uploads[j as int].fileid as int));
                return false;
            },
        }
        j = j + 1;
    }
    true
}

/// The reuse index.
pub struct BackupDB {
    database_url: String,
    caps: Vec<Cap>,
    local_files: Vec<LocalFile>,
    directories: Vec<Directory>,
    last_upload: Vec<LastUpload>,
}

impl View for BackupDB {
    type V = IndexView;

    closed spec fn view(&self) -> IndexView {
        tables_view(self.caps@, self.local_files@, self.directories@, self.last_upload@)
    }
}

impl BackupDB {
    /// The tables are those of an index.
    pub closed spec fn wf(&self) -> bool {
        tables_valid(self.caps@, self.local_files@, self.directories@, self.last_upload@)
    }

    /// Where the index is kept.
    pub closed spec fn url(&self) -> Seq<char> {
        self.database_url@
    }

    /// Opens the index kept at `database_url` on the rows that were read
    /// from it. Rows that do not make an index are refused: the index
    /// could not be opened. A new index has no rows.
    pub fn new(
        database_url: &str,
        caps: Vec<Cap>,
        local_files: Vec<LocalFile>,
        directories: Vec<Directory>,
        last_upload: Vec<LastUpload>,
    ) -> (r: Result<BackupDB, Error>)
        ensures
            match r {
                Ok(db) => {
                    &&& tables_valid(caps@, local_files@, directories@, last_upload@)
                    &&& db.wf()
                    &&& db@ == tables_view(caps@, local_files@, directories@, last_upload@)
                    &&& db.url() == database_url@
                },
                Err(e) => {
                    &&& !tables_valid(caps@, local_files@, directories@, last_upload@)
                    &&& e@ == seq![KindView::Connection(database_url@)]
                },
            },
    {
        proof {
            lemma_rows_valid(caps@, local_files@, directories@, last_upload@);
        }
        if caps_valid(&caps) && files_valid(&local_files, &caps) && dirs_valid(&directories)
            && uploads_valid(&last_upload, &caps) {
            Ok(
                BackupDB {
                    database_url: String::from_str(database_url),
                    caps,
                    local_files,
                    directories,
                    last_upload,
                },
            )
        } else {
            Err(Error::new(ErrorKind::Connection(String::from_str(database_url))))
        }
    }

    /// Where the index is kept.
    pub fn database_url(&self) -> (url: &str)
        ensures
            url@ == self.url(),
    {
        self.database_url.as_str()
    }

    /// The table of capabilities.
    pub fn caps(&self) -> (rows: &Vec<Cap>)
        requires
            self.wf(),
        ensures
            keys_distinct(cap_pairs(rows@)),
            as_map(cap_pairs(rows@)) == self@.caps,
    {
        &self.caps
    }

    /// The table of local files.
    pub fn local_files(&self) -> (rows: &Vec<LocalFile>)
        requires
            self.wf(),
        ensures
            keys_distinct(file_pairs(rows@)),
            as_map(file_pairs(rows@)) == self@.files,
    {
        &self.local_files
    }

    /// The table of stored directories.
    pub fn directories(&self) -> (rows: &Vec<Directory>)
        requires
            self.wf(),
        ensures
            keys_distinct(dir_pairs(rows@)),
            as_map(dir_pairs(rows@)) == self@.dirs,
    {
        &self.directories
    }

    /// The table of upload times.
    pub fn last_upload(&self) -> (rows: &Vec<LastUpload>)
        requires
            self.wf(),
        ensures
            keys_distinct(upload_pairs(rows@)),
            as_map(upload_pairs(rows@)) == self@.uploads,
    {
        &self.last_upload
    }

    /// Looks up the capability under which `path` was stored when it had
    /// this size and these times. A record that says anything else is
    /// stale: it is deleted, and nothing is found.
    pub fn check_file(&mut self, path: &str, size: i64, ctime: i64, mtime: i64) -> (found: Option<
        String,
    >)
        requires
            old(self).wf(),
        ensures
            final(self).wf(),
            final(self).url() == old(self).url(),
            found.deep_view() == old(self)@.lookup(path@, size, ctime, mtime),
            final(self)@ == old(self)@.after_check(path@, size, ctime, mtime),
    {
        let key = String::from_str(path);
        let ghost pairs = file_pairs(self.local_files@);
        match find_file(&self.local_files, &key, self.local_files.len()) {
            None => {
                proof {
                    lemma_absent(pairs, path@);
                }
                None
            },
            Some(i) => {
                proof {
                    lemma_row(pairs, i as int);
                }
                let file = &self.local_files[i];
                if file.size != size || file.ctime != ctime || file.mtime != mtime {
                    proof {
                        lemma_remove(pairs, i as int);
                        assert(file_pairs(self.local_files@.remove(i as int)) =~= pairs.remove(
                            i as int,
                        ));
                    }
                    self.local_files.remove(i);
                    proof {
                        assert(self@.files == old(self)@.files.remove(path@));
                        lemma_after_check_wf(old(self)@, path@, size, ctime, mtime);
                    }
                    None
                } else {
                    let id: i32 = file.fileid;
                    match find_cap(&self.caps, id, self.caps.len()) {
                        Some(c) => {
                            proof {
                                lemma_row(cap_pairs(self.caps@), c as int);
                            }
                            Some(self.caps[c].filecap.clone())
                        },
                        None => {
                            proof {
                                lemma_absent(cap_pairs(self.caps@), id as int);
                            }
                            None
                        },
                    }
                }
            },
        }
    }

    /// Looks up the capability of a directory whose manifest has this hash.
    pub fn check_dir(&self, dirhash: i64) -> (found: Option<String>)
        requires
            self.wf(),
        ensures
            found.deep_view() == self@.dir_cap(dirhash),
    {
        let ghost pairs = dir_pairs(self.directories@);
        match find_dir(&self.directories, dirhash, self.directories.len()) {
            Some(i) => {
                proof {
                    lemma_row(pairs, i as int);
                }
                Some(self.directories[i].dircap.clone())
            },
            None => {
                proof {
                    lemma_absent(pairs, dirhash);
                }
                None
            },
        }
    }

    /// The number for the next new capability, unless the numbers have run
    /// out.
    fn fresh_id(&self) -> (id: Option<i32>)
        requires
            self.wf(),
        ensures
            match id {
                Some(id) => id == self@.next_id(),
                None => self@.next_id() > i32::MAX,
            },
    {
        let ghost pairs = cap_pairs(self.caps@);
        proof {
            lemma_top(self@, pairs);
        }
        if self.caps.len() == 0 {
            return Some(1);
        }
        let mut top: i32 = self.caps[0].fileid;
        let mut i: usize = 1;
        assert(pairs.take(1).drop_last() =~= pairs.take(0));
        while i < self.caps.len()
            invariant
                1 <= i <= self.caps.len(),
                pairs == cap_pairs(self.caps@),
                top == max_key(pairs.take(i as int)),
            decreases self.caps.len() - i,
        {
            assert(pairs.take(i + 1).drop_last() =~= pairs.take(i as int));
            if self.caps[i].fileid > top {
                top = self.caps[i].fileid;
            }
            i = i + 1;
        }
        proof {
            assert(pairs.take(i as int) =~= pairs);
            lemma_top_unique(self@, top as int);
        }
        if top == i32::MAX {
            None
        } else {
            Some(top + 1)
        }
    }

    /// Binds `path`, with the size and times the file has, to the
    /// capability `cap`, obtained at the time `at`. The capability keeps its
    /// number if it is recorded and gets the next one if it is not; the time
    /// of its last upload becomes `at`; a record that `path` had is
    /// replaced. Fails, and changes nothing, where `cap` is new and the
    /// numbers have run out.
    pub fn add_file_at(
        &mut self,
        cap: &str,
        path: String,
        size: i64,
        ctime: i64,
        mtime: i64,
        at: SystemTime,
    ) -> (r: Result<(), Error>)
        requires
            old(self).wf(),
        ensures
            final(self).wf(),
            final(self).url() == old(self).url(),
            match r {
                Ok(_) => old(self)@.can_add(cap@) && final(self)@ == old(self)@.with_file(
                    cap@,
                    path@,
                    size,
                    ctime,
                    mtime,
                    at,
                ),
                Err(e) => !old(self)@.can_add(cap@) && final(self)@ == old(self)@ && e@
                    == seq![KindView::Msg("Failed to insert cap"@)],
            },
    {
        let ghost v0 = self@;
        let text = String::from_str(cap);
        let ghost caps0 = cap_pairs(self.caps@);
        let id: i32 = match find_cap_text(&self.caps, &text, self.caps.len()) {
            Some(i) => {
                proof {
                    lemma_row(caps0, i as int);
                    lemma_id_of(v0, self.caps[i as int].fileid as int);
                    assert(self@.caps.insert(self.caps[i as int].fileid as int, cap@) =~= v0.caps);
                }
                self.caps[i].fileid
            },
            None => {
                proof {
                    assert(!v0.knows(cap@)) by {
                        if v0.knows(cap@) {
                            let k = v0.id_of(cap@);
                            let j = choose|j: int|
                                0 <= j < caps0.len() && (#[trigger] caps0[j]).0 == k;
                            lemma_row(caps0, j);
                        }
                    }
                }
                match self.fresh_id() {
                    Some(id) => {
                        proof {
                            lemma_next_id_new(v0);
                            lemma_push(caps0, id as int, cap@);
                            assert(cap_pairs(self.caps@.push(Cap { fileid: id, filecap: text }))
                                =~= caps0.push((id as int, cap@)));
                        }
                        self.caps.push(Cap { fileid: id, filecap: text });
                        id
                    },
                    None => {
                        return Err(Error::msg("Failed to insert cap"));
                    },
                }
            },
        };
        assert(id == v0.id_for(cap@));
        assert(self@.caps == v0.caps.insert(id as int, cap@));
        assert(keys_distinct(cap_pairs(self.caps@)));

        let ghost ups0 = upload_pairs(self.last_upload@);
        match find_upload(&self.last_upload, id, self.last_upload.len()) {
            Some(i) => {
                proof {
                    lemma_remove(ups0, i as int);
                    assert(upload_pairs(self.last_upload@.remove(i as int)) =~= ups0.remove(
                        i as int,
                    ));
                }
                self.last_upload.remove(i);
            },
            None => {
                proof {
                    lemma_absent(ups0, id as int);
                    assert(as_map(ups0).remove(id as int) =~= as_map(ups0));
                }
            },
        }
        let ghost ups1 = upload_pairs(self.last_upload@);
        assert(as_map(ups1) == v0.uploads.remove(id as int));
        proof {
            assert(!has_key(ups1, id as int));
            lemma_push(ups1, id as int, at);
            assert(upload_pairs(self.last_upload@.push(LastUpload { fileid: id, last_uploaded: at }))
                =~= ups1.push((id as int, at)));
            assert(v0.uploads.remove(id as int).insert(id as int, at) =~= v0.uploads.insert(
                id as int,
                at,
            ));
        }
        self.last_upload.push(LastUpload { fileid: id, last_uploaded: at });
        assert(self@.uploads == v0.uploads.insert(id as int, at));

        let ghost files0 = file_pairs(self.local_files@);
        match find_file(&self.local_files, &path, self.local_files.len()) {
            Some(i) => {
                proof {
                    lemma_remove(files0, i as int);
                    assert(file_pairs(self.local_files@.remove(i as int)) =~= files0.remove(
                        i as int,
                    ));
                }
                self.local_files.remove(i);
            },
            None => {
                proof {
                    lemma_absent(files0, path@);
                    assert(as_map(files0).remove(path@) =~= as_map(files0));
                }
            },
        }
        let ghost files1 = file_pairs(self.local_files@);
        assert(as_map(files1) == v0.files.remove(path@));
        let row = LocalFile { path, size, mtime, ctime, fileid: id };
        proof {
            assert(!has_key(files1, path@));
            lemma_push(files1, path@, file_row(row));
            assert(file_pairs(self.local_files@.push(row)) =~= files1.push(
                (path@, file_row(row)),
            ));
            assert(v0.files.remove(path@).insert(path@, file_row(row)) =~= v0.files.insert(
                path@,
                file_row(row),
            ));
        }
        self.local_files.push(row);
        proof {
            assert(self@.files == v0.files.insert(path@, file_row(row)));
            assert(self@.dirs == v0.dirs);
            lemma_with_file_wf(v0, cap@, path@, size, ctime, mtime, at);
        }
        Ok(())
    }

    /// Binds `path` to the capability `cap` as [`BackupDB::add_file_at`]
    /// does, at the time the clock shows.
    pub fn add_file(&mut self, cap: &str, path: String, size: i64, ctime: i64, mtime: i64) -> (r:
        Result<(), Error>)
        requires
            old(self).wf(),
        ensures
            final(self).wf(),
            final(self).url() == old(self).url(),
            match r {
                Ok(_) => old(self)@.can_add(cap@) && exists|at: SystemTime|
                    final(self)@ == #[trigger] old(self)@.with_file(
                        cap@,
                        path@,
                        size,
                        ctime,
                        mtime,
                        at,
                    ),
                Err(e) => !old(self)@.can_add(cap@) && final(self)@ == old(self)@ && e@
                    == seq![KindView::Msg("Failed to insert cap"@)],
            },
    {
        let at = now();
        self.add_file_at(cap, path, size, ctime, mtime, at)
    }

    /// Records that a directory whose manifest hashes to `dirhash` was
    /// stored under `cap` at the time `at`. A hash that is already
    /// recorded keeps what it has.
    pub fn add_dir_at(&mut self, dirhash: i64, cap: &str, at: SystemTime)
        requires
            old(self).wf(),
        ensures
            final(self).wf(),
            final(self).url() == old(self).url(),
            final(self)@ == old(self)@.with_dir(dirhash, cap@, at),
    {
        let ghost v0 = self@;
        let ghost dirs0 = dir_pairs(self.directories@);
        proof {
            lemma_with_dir_wf(v0, dirhash, cap@, at);
        }
        match find_dir(&self.directories, dirhash, self.directories.len()) {
            Some(i) => {
                proof {
                    lemma_row(dirs0, i as int);
                }
            },
            None => {
                let row = Directory {
                    dirhash,
                    dircap: String::from_str(cap),
                    last_uploaded: at,
                };
                proof {
                    lemma_absent(dirs0, dirhash);
                    lemma_push(dirs0, dirhash, DirRow { dircap: cap@, last_uploaded: at });
                    assert(dir_pairs(self.directories@.push(row)) =~= dirs0.push(
                        (dirhash, DirRow { dircap: cap@, last_uploaded: at }),
                    ));
                }
                self.directories.push(row);
            },
        }
    }

    /// Records a stored directory as [`BackupDB::add_dir_at`] does, at the
    /// time the clock shows.
    pub fn add_dir(&mut self, dirhash: i64, cap: &str)
        requires
            old(self).wf(),
        ensures
            final(self).wf(),
            final(self).url() == old(self).url(),
            exists|at: SystemTime| final(self)@ == #[trigger] old(self)@.with_dir(dirhash, cap@, at),
    {
        let at = now();
        self.add_dir_at(dirhash, cap, at)
    }
}

/// A file that was bound to a capability is found again: a lookup under the
/// same path, size and times gives that capability.
pub proof fn law_added_file_is_found(
    v: IndexView,
    cap: Seq<char>,
    path: Seq<char>,
    size: i64,
    ctime: i64,
    mtime: i64,
    at: SystemTime,
)
    ensures
        v.with_file(cap, path, size, ctime, mtime, at).lookup(path, size, ctime, mtime) == Some(
            cap,
        ),
        v.with_file(cap, path, size, ctime, mtime, at).after_check(path, size, ctime, mtime)
            == v.with_file(cap, path, size, ctime, mtime, at),
{
}

/// A lookup under another size or other times finds nothing and forgets the
/// file: a second lookup, under the size and times it was bound with,
/// finds nothing either.
pub proof fn law_changed_file_is_forgotten(
    v: IndexView,
    cap: Seq<char>,
    path: Seq<char>,
    size: i64,
    ctime: i64,
    mtime: i64,
    at: SystemTime,
    other_size: i64,
    other_ctime: i64,
    other_mtime: i64,
)
    requires
        other_size != size || other_ctime != ctime || other_mtime != mtime,
    ensures
        v.with_file(cap, path, size, ctime, mtime, at).lookup(
            path,
            other_size,
            other_ctime,
            other_mtime,
        ).is_none(),
        v.with_file(cap, path, size, ctime, mtime, at).after_check(
            path,
            other_size,
            other_ctime,
            other_mtime,
        ).lookup(path, size, ctime, mtime).is_none(),
{
}

/// Binding a file twice is binding it once: where the first binding
/// succeeds the second does too, and it changes nothing but the time of
/// the capability's last upload. What a run can see of the index is the
/// same after both.
pub proof fn law_add_file_idempotent(
    v: IndexView,
    cap: Seq<char>,
    path: Seq<char>,
    size: i64,
    ctime: i64,
    mtime: i64,
    first: SystemTime,
    second: SystemTime,
)
    requires
        v.wf(),
        v.can_add(cap),
    ensures
        ({
            let once = v.with_file(cap, path, size, ctime, mtime, first);
            let twice = once.with_file(cap, path, size, ctime, mtime, second);
            &&& once.can_add(cap)
            &&& twice.caps == once.caps
            &&& twice.files == once.files
            &&& twice.dirs == once.dirs
            &&& twice.uploads == once.uploads.insert(v.id_for(cap), second)
            &&& twice.seen() == once.seen()
        }),
{
    let once = v.with_file(cap, path, size, ctime, mtime, first);
    let twice = once.with_file(cap, path, size, ctime, mtime, second);
    lemma_with_file_wf(v, cap, path, size, ctime, mtime, first);
    assert(twice.caps =~= once.caps);
    assert(twice.files =~= once.files);
}

/// A directory that was recorded is found again under its hash, with the
/// capability that was recorded first; recording it again changes nothing.
pub proof fn law_added_dir_is_found(
    v: IndexView,
    dirhash: i64,
    cap: Seq<char>,
    first: SystemTime,
    second: SystemTime,
)
    ensures
        v.with_dir(dirhash, cap, first).dir_cap(dirhash) == match v.dir_cap(dirhash) {
            Some(known) => Some(known),
            None => Some(cap),
        },
        v.with_dir(dirhash, cap, first).with_dir(dirhash, cap, second) == v.with_dir(
            dirhash,
            cap,
            first,
        ),
{
}

/// A lookup changes nothing of a file that it finds, and nothing of any
/// other path.
pub proof fn law_check_keeps_others(
    v: IndexView,
    path: Seq<char>,
    size: i64,
    ctime: i64,
    mtime: i64,
    other: Seq<char>,
)
    requires
        other != path,
    ensures
        v.lookup(path, size, ctime, mtime).is_some() ==> v.after_check(path, size, ctime, mtime)
            == v,
        !v.files.dom().contains(path) ==> v.after_check(path, size, ctime, mtime) == v,
        v.after_check(path, size, ctime, mtime).files.dom().contains(other)
            == v.files.dom().contains(other),
        v.files.dom().contains(other) ==> v.after_check(path, size, ctime, mtime).files[other]
            == v.files[other],
{
}

} // verus!
