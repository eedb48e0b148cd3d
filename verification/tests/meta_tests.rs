use tahoe_backup::meta::{since_epoch, FileInfo, FileKind};

fn info(len: u64, created: Option<i64>, modified: Option<i64>) -> FileInfo {
    FileInfo { kind: FileKind::File, len, created, modified }
}

#[test]
fn index_times_default_to_zero() {
    let i = info(5, None, None);
    assert_eq!(i.ctime(), 0);
    assert_eq!(i.mtime(), 0);
}

#[test]
fn index_times_are_the_reported_seconds() {
    let i = info(5, Some(100), Some(200));
    assert_eq!(i.ctime(), 100);
    assert_eq!(i.mtime(), 200);
    let before_epoch = info(5, Some(-3), Some(-4));
    assert_eq!(before_epoch.ctime(), -3);
    assert_eq!(before_epoch.mtime(), -4);
}

#[test]
fn index_size_is_the_length() {
    assert_eq!(info(0, None, None).size(), 0);
    assert_eq!(info(5, None, None).size(), 5);
    assert_eq!(info(i64::MAX as u64, None, None).size(), i64::MAX);
}

#[test]
fn index_size_reads_the_same_bits_as_signed() {
    assert_eq!(info(u64::MAX, None, None).size(), -1);
    assert_eq!(info(1u64 << 63, None, None).size(), i64::MIN);
}

#[test]
fn manifest_time_is_absent_before_the_epoch() {
    assert_eq!(since_epoch(None), None);
    assert_eq!(since_epoch(Some(-1)), None);
    assert_eq!(since_epoch(Some(0)), Some(0));
    assert_eq!(since_epoch(Some(100)), Some(100));
    assert_eq!(since_epoch(Some(i64::MAX)), Some(i64::MAX as u64));
}
