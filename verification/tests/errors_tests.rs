use tahoe_backup::errors::{log_err, ok_or_log, upload_err, Error, ErrorKind};

fn kinds_with_path() -> Vec<(ErrorKind, &'static str)> {
    vec![
        (ErrorKind::Connection(String::from("db.sqlite")), "Failed to connect to database: 'db.sqlite'"),
        (ErrorKind::FileOpen(String::from("/a/b")), "Couldn't open file: '/a/b'"),
        (ErrorKind::ReadMetadata(String::from("/a/b")), "Couldn't read metadata: '/a/b'"),
        (ErrorKind::FileUpload(String::from("/a/b")), "Couldn't upload file: '/a/b'"),
        (ErrorKind::GlobParse(String::from("[a")), "Couldn't parse glob: '[a'"),
        (ErrorKind::UnknownFile(String::from("/dev/null")), "Unexpected file: '/dev/null'"),
    ]
}

#[test]
fn message_quotes_its_subject() {
    for (kind, text) in kinds_with_path() {
        assert_eq!(kind.message(), text);
    }
}

#[test]
fn message_of_plain_kinds() {
    assert_eq!(ErrorKind::Msg(String::from("couldn't read dir")).message(), "couldn't read dir");
    assert_eq!(ErrorKind::Io(String::from("permission denied")).message(), "permission denied");
    assert_eq!(ErrorKind::Upload.message(), "failed to upload file");
    assert_eq!(ErrorKind::Decode.message(), "Failed to parse response into string");
}

#[test]
fn message_of_status_names_the_reason() {
    assert_eq!(ErrorKind::StoreStatus(500).message(), "Tahoe returned 500 Internal Server Error");
    assert_eq!(ErrorKind::StoreStatus(404).message(), "Tahoe returned 404 Not Found");
    assert_eq!(ErrorKind::StoreStatus(410).message(), "Tahoe returned 410 Gone");
}

#[test]
fn message_of_status_without_reason() {
    assert_eq!(ErrorKind::StoreStatus(599).message(), "Tahoe returned 599 (unknown)");
    assert_eq!(ErrorKind::StoreStatus(7).message(), "Tahoe returned 7 (unknown)");
    assert_eq!(ErrorKind::StoreStatus(65535).message(), "Tahoe returned 65535 (unknown)");
}

#[test]
fn error_kind_clone_is_equal() {
    for (kind, _) in kinds_with_path() {
        assert_eq!(kind.clone(), kind);
    }
    assert_eq!(ErrorKind::StoreStatus(500).clone(), ErrorKind::StoreStatus(500));
}

#[test]
fn new_error_has_no_cause() {
    let e = Error::new(ErrorKind::Decode);
    assert_eq!(e.kind, ErrorKind::Decode);
    assert!(e.causes.is_empty());
    assert_eq!(*e.kind(), ErrorKind::Decode);
}

#[test]
fn msg_error_holds_the_text() {
    let e = Error::msg("not following symlink");
    assert_eq!(e, Error::new(ErrorKind::Msg(String::from("not following symlink"))));
}

#[test]
fn with_chain_puts_the_new_failure_first() {
    let cause = Error::with_chain(Error::new(ErrorKind::Io(String::from("reset"))), ErrorKind::Upload);
    let e = Error::with_chain(cause, ErrorKind::FileUpload(String::from("/x")));
    assert_eq!(e.kind, ErrorKind::FileUpload(String::from("/x")));
    assert_eq!(e.causes, vec![ErrorKind::Upload, ErrorKind::Io(String::from("reset"))]);
}

#[test]
fn error_clone_keeps_the_chain() {
    let e = Error::with_chain(Error::new(ErrorKind::StoreStatus(500)), ErrorKind::FileUpload(String::from("/x")));
    assert_eq!(e.clone(), e);
}

#[test]
fn upload_err_marks_the_cause() {
    let e = upload_err(Error::new(ErrorKind::Io(String::from("connection refused"))));
    assert_eq!(e.kind, ErrorKind::Upload);
    assert_eq!(e.causes, vec![ErrorKind::Io(String::from("connection refused"))]);
}

#[test]
fn log_err_indents_each_cause_one_deeper() {
    let e = Error::with_chain(
        Error::with_chain(Error::new(ErrorKind::Io(String::from("reset"))), ErrorKind::Upload),
        ErrorKind::FileUpload(String::from("/x")),
    );
    assert_eq!(
        log_err(&e),
        vec![
            String::from("Couldn't upload file: '/x'"),
            String::from(" failed to upload file"),
            String::from("  reset"),
        ]
    );
}

#[test]
fn log_err_of_single_failure_is_one_line() {
    assert_eq!(log_err(&Error::msg("not following symlink")), vec![String::from("not following symlink")]);
}

#[test]
fn ok_or_log_hands_a_success_on() {
    let mut log = vec![String::from("earlier")];
    let kept = ok_or_log(Ok::<u32, Error>(7), &mut log);
    assert_eq!(kept, Some(7));
    assert_eq!(log, vec![String::from("earlier")]);
}

#[test]
fn ok_or_log_reports_a_failure_and_drops_it() {
    let mut log = vec![String::from("earlier")];
    let failure = Error::with_chain(Error::new(ErrorKind::StoreStatus(500)), ErrorKind::FileUpload(String::from("/x")));
    let kept = ok_or_log(Err::<u32, Error>(failure), &mut log);
    assert_eq!(kept, None);
    assert_eq!(
        log,
        vec![
            String::from("earlier"),
            String::from("Couldn't upload file: '/x'"),
            String::from(" Tahoe returned 500 Internal Server Error"),
        ]
    );
}
