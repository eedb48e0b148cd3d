use std::time::{Duration, SystemTime, UNIX_EPOCH};
use tahoe_backup::backupdb::BackupDB;
use tahoe_backup::errors::{Error, ErrorKind};
use tahoe_backup::models::{Cap, Directory, LastUpload, LocalFile, Version};

fn empty() -> BackupDB {
    BackupDB::new("index.sqlite", vec![], vec![], vec![], vec![]).unwrap()
}

fn cap(fileid: i32, filecap: &str) -> Cap {
    Cap { fileid, filecap: String::from(filecap) }
}

fn file(path: &str, size: i64, ctime: i64, mtime: i64, fileid: i32) -> LocalFile {
    LocalFile { path: String::from(path), size, mtime, ctime, fileid }
}

#[test]
fn new_index_is_empty() {
    let db = empty();
    assert_eq!(db.database_url(), "index.sqlite");
    assert!(db.caps().is_empty());
    assert!(db.local_files().is_empty());
    assert!(db.directories().is_empty());
    assert!(db.last_upload().is_empty());
}

#[test]
fn version_row_holds_a_number() {
    assert_eq!(Version { version: 1 }, Version { version: 1 });
}

#[test]
fn added_file_is_found() {
    let mut db = empty();
    db.add_file("URI:CHK:xyz", String::from("/abs/a.txt"), 5, 100, 200).unwrap();
    assert_eq!(db.check_file("/abs/a.txt", 5, 100, 200), Some(String::from("URI:CHK:xyz")));
    assert_eq!(db.check_file("/abs/a.txt", 5, 100, 200), Some(String::from("URI:CHK:xyz")));
}

#[test]
fn unknown_path_is_not_found_and_nothing_changes() {
    let mut db = empty();
    db.add_file("URI:CHK:xyz", String::from("/abs/a.txt"), 5, 100, 200).unwrap();
    assert_eq!(db.check_file("/abs/b.txt", 5, 100, 200), None);
    assert_eq!(db.local_files().len(), 1);
    assert_eq!(db.check_file("/abs/a.txt", 5, 100, 200), Some(String::from("URI:CHK:xyz")));
}

#[test]
fn changed_size_forgets_the_file() {
    let mut db = empty();
    db.add_file("URI:CHK:xyz", String::from("/abs/a.txt"), 5, 100, 200).unwrap();
    assert_eq!(db.check_file("/abs/a.txt", 6, 100, 200), None);
    assert_eq!(db.check_file("/abs/a.txt", 5, 100, 200), None);
    assert!(db.local_files().is_empty());
    assert_eq!(db.caps().len(), 1);
}

#[test]
fn changed_ctime_forgets_the_file() {
    let mut db = empty();
    db.add_file("URI:CHK:xyz", String::from("/abs/a.txt"), 5, 100, 200).unwrap();
    assert_eq!(db.check_file("/abs/a.txt", 5, 101, 200), None);
    assert_eq!(db.check_file("/abs/a.txt", 5, 100, 200), None);
}

#[test]
fn changed_mtime_forgets_the_file() {
    let mut db = empty();
    db.add_file("URI:CHK:xyz", String::from("/abs/a.txt"), 5, 100, 200).unwrap();
    assert_eq!(db.check_file("/abs/a.txt", 5, 100, 201), None);
    assert_eq!(db.check_file("/abs/a.txt", 5, 100, 200), None);
}

#[test]
fn add_file_twice_is_add_file_once() {
    let mut db = empty();
    db.add_file("URI:CHK:xyz", String::from("/abs/a.txt"), 5, 100, 200).unwrap();
    let caps_once = db.caps().len();
    let files_once = db.local_files().len();
    let uploads_once = db.last_upload().len();
    let id_once = db.local_files()[0].fileid;
    db.add_file("URI:CHK:xyz", String::from("/abs/a.txt"), 5, 100, 200).unwrap();
    assert_eq!(db.caps().len(), caps_once);
    assert_eq!(db.local_files().len(), files_once);
    assert_eq!(db.last_upload().len(), uploads_once);
    assert_eq!(db.local_files()[0], file("/abs/a.txt", 5, 100, 200, id_once));
    assert_eq!(db.caps()[0], cap(id_once, "URI:CHK:xyz"));
    assert_eq!(db.check_file("/abs/a.txt", 5, 100, 200), Some(String::from("URI:CHK:xyz")));
}

#[test]
fn first_capability_gets_number_one() {
    let mut db = empty();
    db.add_file("URI:CHK:one", String::from("/a"), 1, 2, 3).unwrap();
    db.add_file("URI:CHK:two", String::from("/b"), 1, 2, 3).unwrap();
    assert_eq!(db.caps(), &vec![cap(1, "URI:CHK:one"), cap(2, "URI:CHK:two")]);
}

#[test]
fn next_capability_gets_one_more_than_the_largest_number() {
    let mut db = BackupDB::new("x", vec![cap(7, "URI:CHK:seven"), cap(-3, "URI:CHK:neg")], vec![], vec![], vec![]).unwrap();
    db.add_file("URI:CHK:new", String::from("/a"), 1, 2, 3).unwrap();
    assert_eq!(db.caps()[2], cap(8, "URI:CHK:new"));
    assert_eq!(db.local_files()[0].fileid, 8);
}

#[test]
fn known_capability_keeps_its_number() {
    let mut db = empty();
    db.add_file("URI:CHK:same", String::from("/a"), 1, 2, 3).unwrap();
    db.add_file("URI:CHK:same", String::from("/b"), 4, 5, 6).unwrap();
    assert_eq!(db.caps().len(), 1);
    assert_eq!(db.last_upload().len(), 1);
    assert_eq!(db.local_files().len(), 2);
    assert_eq!(db.check_file("/a", 1, 2, 3), Some(String::from("URI:CHK:same")));
    assert_eq!(db.check_file("/b", 4, 5, 6), Some(String::from("URI:CHK:same")));
}

#[test]
fn new_upload_replaces_the_record_of_a_path() {
    let mut db = empty();
    db.add_file("URI:CHK:old", String::from("/a"), 5, 100, 200).unwrap();
    db.add_file("URI:CHK:new", String::from("/a"), 7, 100, 300).unwrap();
    assert_eq!(db.local_files().len(), 1);
    assert_eq!(db.check_file("/a", 7, 100, 300), Some(String::from("URI:CHK:new")));
    assert_eq!(db.caps().len(), 2);
}

#[test]
fn zero_byte_file_is_recorded_with_size_zero() {
    let mut db = empty();
    db.add_file("URI:LIT:", String::from("/abs/empty"), 0, 0, 200).unwrap();
    assert_eq!(db.local_files()[0].size, 0);
    assert_eq!(db.check_file("/abs/empty", 0, 0, 200), Some(String::from("URI:LIT:")));
}

#[test]
fn add_file_at_records_the_time() {
    let mut db = empty();
    let first = UNIX_EPOCH + Duration::from_secs(1000);
    let second = UNIX_EPOCH + Duration::from_secs(2000);
    db.add_file_at("URI:CHK:xyz", String::from("/a"), 5, 100, 200, first).unwrap();
    assert_eq!(db.last_upload(), &vec![LastUpload { fileid: 1, last_uploaded: first }]);
    db.add_file_at("URI:CHK:xyz", String::from("/a"), 5, 100, 200, second).unwrap();
    assert_eq!(db.last_upload(), &vec![LastUpload { fileid: 1, last_uploaded: second }]);
}

#[test]
fn add_file_fails_when_the_numbers_have_run_out() {
    let mut db = BackupDB::new("x", vec![cap(i32::MAX, "URI:CHK:last")], vec![], vec![], vec![]).unwrap();
    let r = db.add_file("URI:CHK:more", String::from("/a"), 1, 2, 3);
    assert_eq!(r, Err(Error::msg("Failed to insert cap")));
    assert_eq!(db.caps().len(), 1);
    assert!(db.local_files().is_empty());
    assert!(db.last_upload().is_empty());
    assert_eq!(db.add_file("URI:CHK:last", String::from("/a"), 1, 2, 3), Ok(()));
    assert_eq!(db.check_file("/a", 1, 2, 3), Some(String::from("URI:CHK:last")));
}

#[test]
fn added_dir_is_found() {
    let mut db = empty();
    assert_eq!(db.check_dir(42), None);
    db.add_dir(42, "URI:DIR:abc");
    assert_eq!(db.check_dir(42), Some(String::from("URI:DIR:abc")));
    assert_eq!(db.check_dir(43), None);
}

#[test]
fn add_dir_twice_keeps_the_first_capability() {
    let mut db = empty();
    let first = UNIX_EPOCH + Duration::from_secs(1000);
    db.add_dir_at(-9, "URI:DIR:abc", first);
    db.add_dir(-9, "URI:DIR:other");
    assert_eq!(db.check_dir(-9), Some(String::from("URI:DIR:abc")));
    assert_eq!(
        db.directories(),
        &vec![Directory { dirhash: -9, dircap: String::from("URI:DIR:abc"), last_uploaded: first }]
    );
}

#[test]
fn index_is_opened_on_the_rows_read() {
    let at = SystemTime::now();
    let mut db = BackupDB::new(
        "index.sqlite",
        vec![cap(1, "URI:CHK:xyz")],
        vec![file("/abs/a.txt", 5, 100, 200, 1)],
        vec![Directory { dirhash: 77, dircap: String::from("URI:DIR:abc"), last_uploaded: at }],
        vec![LastUpload { fileid: 1, last_uploaded: at }],
    )
    .unwrap();
    assert_eq!(db.check_file("/abs/a.txt", 5, 100, 200), Some(String::from("URI:CHK:xyz")));
    assert_eq!(db.check_dir(77), Some(String::from("URI:DIR:abc")));
}

fn refused(r: Result<BackupDB, Error>) -> bool {
    match r {
        Ok(_) => false,
        Err(e) => e == Error::new(ErrorKind::Connection(String::from("index.sqlite"))),
    }
}

#[test]
fn rows_with_a_number_twice_are_refused() {
    assert!(refused(BackupDB::new("index.sqlite", vec![cap(1, "a"), cap(1, "b")], vec![], vec![], vec![])));
}

#[test]
fn rows_with_a_capability_twice_are_refused() {
    assert!(refused(BackupDB::new("index.sqlite", vec![cap(1, "a"), cap(2, "a")], vec![], vec![], vec![])));
}

#[test]
fn rows_with_a_path_twice_are_refused() {
    assert!(refused(BackupDB::new(
        "index.sqlite",
        vec![cap(1, "a")],
        vec![file("/p", 1, 2, 3, 1), file("/p", 4, 5, 6, 1)],
        vec![],
        vec![]
    )));
}

#[test]
fn file_without_its_capability_is_refused() {
    assert!(refused(BackupDB::new("index.sqlite", vec![cap(1, "a")], vec![file("/p", 1, 2, 3, 2)], vec![], vec![])));
}

#[test]
fn rows_with_a_hash_twice_are_refused() {
    let at = SystemTime::now();
    assert!(refused(BackupDB::new(
        "index.sqlite",
        vec![],
        vec![],
        vec![
            Directory { dirhash: 1, dircap: String::from("URI:DIR:a"), last_uploaded: at },
            Directory { dirhash: 1, dircap: String::from("URI:DIR:b"), last_uploaded: at },
        ],
        vec![]
    )));
}

#[test]
fn upload_time_without_its_capability_is_refused() {
    let at = SystemTime::now();
    assert!(refused(BackupDB::new(
        "index.sqlite",
        vec![cap(1, "a")],
        vec![],
        vec![],
        vec![LastUpload { fileid: 5, last_uploaded: at }]
    )));
}

#[test]
fn upload_time_twice_is_refused() {
    let at = SystemTime::now();
    assert!(refused(BackupDB::new(
        "index.sqlite",
        vec![cap(1, "a")],
        vec![],
        vec![],
        vec![LastUpload { fileid: 1, last_uploaded: at }, LastUpload { fileid: 1, last_uploaded: at }]
    )));
}

#[test]
fn single_file_is_reused_on_the_second_run() {
    let mut db = empty();
    assert_eq!(db.check_file("/abs/a.txt", 5, 100, 200), None);
    db.add_file("URI:CHK:xyz", String::from("/abs/a.txt"), 5, 100, 200).unwrap();
    let reopened = BackupDB::new(
        "index.sqlite",
        vec![cap(db.caps()[0].fileid, "URI:CHK:xyz")],
        vec![file("/abs/a.txt", 5, 100, 200, db.local_files()[0].fileid)],
        vec![],
        vec![LastUpload { fileid: db.last_upload()[0].fileid, last_uploaded: db.last_upload()[0].last_uploaded }],
    );
    let mut second = reopened.unwrap();
    assert_eq!(second.check_file("/abs/a.txt", 5, 100, 200), Some(String::from("URI:CHK:xyz")));
}
