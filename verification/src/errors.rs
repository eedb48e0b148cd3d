//! The errors of a backup run.
//!
//! An [`Error`] is a failure together with the chain of failures that caused
//! it, outermost first. A failure inside the tree walk is soft: it is turned
//! into log lines and the entry it belongs to is left out of its parent's
//! manifest. [`ok_or_log`] is that conversion.

use vstd::prelude::*;
use vstd::string::*;
use crate::text::{decimal, decimal_text, indent, spaces};

verus! {

/// What went wrong.
#[derive(Debug, PartialEq, Eq)]
pub enum ErrorKind {
    /// A failure described by its message alone.
    Msg(String),
    /// The index at this location could not be opened.
    Connection(String),
    /// The file at this path could not be opened.
    FileOpen(String),
    /// The metadata of this path could not be read.
    ReadMetadata(String),
    /// The file at this path was not stored.
    FileUpload(String),
    /// This exclusion pattern is not a glob.
    GlobParse(String),
    /// The entry at this path is neither a file, a directory nor a link.
    UnknownFile(String),
    /// The store answered with this status, which is not a success.
    StoreStatus(u16),
    /// The request did not reach the store, or its answer did not arrive.
    Upload,
    /// The store's answer is not UTF-8 text.
    Decode,
    /// An error of the operating system, by its text.
    Io(String),
}

/// The mathematical value of an [`ErrorKind`].
pub enum KindView {
    Msg(Seq<char>),
    Connection(Seq<char>),
    FileOpen(Seq<char>),
    ReadMetadata(Seq<char>),
    FileUpload(Seq<char>),
    GlobParse(Seq<char>),
    UnknownFile(Seq<char>),
    StoreStatus(u16),
    Upload,
    Decode,
    Io(Seq<char>),
}

impl View for ErrorKind {
    type V = KindView;

    open spec fn view(&self) -> KindView {
        match self {
            ErrorKind::Msg(s) => KindView::Msg(s@),
            ErrorKind::Connection(s) => KindView::Connection(s@),
            ErrorKind::FileOpen(s) => KindView::FileOpen(s@),
            ErrorKind::ReadMetadata(s) => KindView::ReadMetadata(s@),
            ErrorKind::FileUpload(s) => KindView::FileUpload(s@),
            ErrorKind::GlobParse(s) => KindView::GlobParse(s@),
            ErrorKind::UnknownFile(s) => KindView::UnknownFile(s@),
            ErrorKind::StoreStatus(c) => KindView::StoreStatus(*c),
            ErrorKind::Upload => KindView::Upload,
            ErrorKind::Decode => KindView::Decode,
            ErrorKind::Io(s) => KindView::Io(s@),
        }
    }
}

/// The reason phrase that HTTP registers for a status code, where it
/// registers one.
pub uninterp spec fn reason_phrase(code: u16) -> Option<Seq<char>>;

/// `hyper::StatusCode::canonical_reason` for the status `code`; `None` where
/// `hyper::StatusCode::from_u16` refuses the number or the status has no
/// registered phrase. The phrase is taken as given: it is a function of the
/// code alone.
#[verifier::external_body]
fn canonical_reason(code: u16) -> (r: Option<String>)
    ensures
        r.deep_view() == reason_phrase(code),
{
    match hyper::StatusCode::from_u16(code) {
        Ok(status) => status.canonical_reason().map(String::from),
        Err(_) => None,
    }
}

/// The text `prefix`, the quoted `subject` and a closing quote.
pub open spec fn about(prefix: Seq<char>, subject: Seq<char>) -> Seq<char> {
    prefix + subject + seq!['\'']
}

/// The phrase shown for a status: the registered one, or `(unknown)`.
pub open spec fn reason_text(code: u16) -> Seq<char> {
    match reason_phrase(code) {
        Some(phrase) => phrase,
        None => "(unknown)"@,
    }
}

/// The line that describes a failure.
pub open spec fn message_text(kind: KindView) -> Seq<char> {
    match kind {
        KindView::Msg(s) => s,
        KindView::Connection(url) => about("Failed to connect to database: '"@, url),
        KindView::FileOpen(path) => about("Couldn't open file: '"@, path),
        KindView::ReadMetadata(path) => about("Couldn't read metadata: '"@, path),
        KindView::FileUpload(path) => about("Couldn't upload file: '"@, path),
        KindView::GlobParse(glob) => about("Couldn't parse glob: '"@, glob),
        KindView::UnknownFile(path) => about("Unexpected file: '"@, path),
        KindView::StoreStatus(code) => "Tahoe returned "@ + decimal_text(code as nat) + seq![' ']
            + reason_text(code),
        KindView::Upload => "failed to upload file"@,
        KindView::Decode => "Failed to parse response into string"@,
        KindView::Io(s) => s,
    }
}

fn about_subject(prefix: &str, subject: &String) -> (s: String)
    ensures
        s@ == about(prefix@, subject@),
{
    let mut s = String::from_str(prefix);
    s.append(subject.as_str());
    proof {
        reveal_strlit("'");
    }
    s.append("'");
    assert(s@ =~= about(prefix@, subject@));
    s
}

impl Clone for ErrorKind {
    fn clone(&self) -> (r: Self)
        ensures
            r == *self,
    {
        match self {
            ErrorKind::Msg(s) => ErrorKind::Msg(s.clone()),
            ErrorKind::Connection(s) => ErrorKind::Connection(s.clone()),
            ErrorKind::FileOpen(s) => ErrorKind::FileOpen(s.clone()),
            ErrorKind::ReadMetadata(s) => ErrorKind::ReadMetadata(s.clone()),
            ErrorKind::FileUpload(s) => ErrorKind::FileUpload(s.clone()),
            ErrorKind::GlobParse(s) => ErrorKind::GlobParse(s.clone()),
            ErrorKind::UnknownFile(s) => ErrorKind::UnknownFile(s.clone()),
            ErrorKind::StoreStatus(c) => ErrorKind::StoreStatus(*c),
            ErrorKind::Upload => ErrorKind::Upload,
            ErrorKind::Decode => ErrorKind::Decode,
            ErrorKind::Io(s) => ErrorKind::Io(s.clone()),
        }
    }
}

impl ErrorKind {
    /// The line that describes this failure.
    pub fn message(&self) -> (s: String)
        ensures
            s@ == message_text(self@),
    {
        match self {
            ErrorKind::Msg(s) => s.clone(),
            ErrorKind::Connection(url) => about_subject("Failed to connect to database: '", url),
            ErrorKind::FileOpen(path) => about_subject("Couldn't open file: '", path),
            ErrorKind::ReadMetadata(path) => about_subject("Couldn't read metadata: '", path),
            ErrorKind::FileUpload(path) => about_subject("Couldn't upload file: '", path),
            ErrorKind::GlobParse(glob) => about_subject("Couldn't parse glob: '", glob),
            ErrorKind::UnknownFile(path) => about_subject("Unexpected file: '", path),
            ErrorKind::StoreStatus(code) => {
                let mut s = String::from_str("Tahoe returned ");
                let number = decimal(*code as u64);
                s.append(number.as_str());
                proof {
                    reveal_strlit(" ");
                }
                s.append(" ");
                match canonical_reason(*code) {
                    Some(phrase) => {
                        s.append(phrase.as_str());
                    },
                    None => {
                        s.append("(unknown)");
                    },
                }
                assert(s@ =~= message_text(self@));
                s
            },
            ErrorKind::Upload => String::from_str("failed to upload file"),
            ErrorKind::Decode => String::from_str("Failed to parse response into string"),
            ErrorKind::Io(s) => s.clone(),
        }
    }
}

/// A failure and the failures that led to it.
#[derive(Debug, PartialEq, Eq)]
pub struct Error {
    /// The failure itself.
    pub kind: ErrorKind,
    /// Its causes, the nearest first.
    pub causes: Vec<ErrorKind>,
}

impl View for Error {
    type V = Seq<KindView>;

    /// The chain, outermost failure first. It is never empty.
    open spec fn view(&self) -> Seq<KindView> {
        seq![self.kind@] + self.causes.deep_view()
    }
}

impl DeepView for ErrorKind {
    type V = KindView;

    open spec fn deep_view(&self) -> KindView {
        self@
    }
}

impl Clone for Error {
    fn clone(&self) -> (r: Self)
        ensures
            r@ == self@,
    {
        let mut causes: Vec<ErrorKind> = Vec::new();
        let mut i: usize = 0;
        while i < self.causes.len()
            invariant
                i <= self.causes.len(),
                causes.len() == i,
                forall|j: int| 0 <= j < i ==> causes[j] == self.causes[j],
            decreases self.causes.len() - i,
        {
            causes.push(self.causes[i].clone());
            i = i + 1;
        }
        let r = Error { kind: self.kind.clone(), causes };
        assert(r.causes.deep_view() =~= self.causes.deep_view());
        r
    }
}

impl Error {
    /// A failure without a cause.
    pub fn new(kind: ErrorKind) -> (e: Error)
        ensures
            e@ == seq![kind@],
    {
        let e = Error { kind, causes: Vec::new() };
        assert(e@ =~= seq![kind@]);
        e
    }

    /// A failure described by `text` alone.
    pub fn msg(text: &str) -> (e: Error)
        ensures
            e@ == seq![KindView::Msg(text@)],
    {
        Error::new(ErrorKind::Msg(String::from_str(text)))
    }

    /// The failure `kind`, caused by `cause`.
    pub fn with_chain(cause: Error, kind: ErrorKind) -> (e: Error)
        ensures
            e@ == seq![kind@] + cause@,
    {
        let Error { kind: first, causes: rest } = cause;
        let mut causes: Vec<ErrorKind> = Vec::new();
        causes.push(first);
        let mut rest = rest;
        let ghost tail = rest.deep_view();
        causes.append(&mut rest);
        let e = Error { kind, causes };
        assert(e.causes.deep_view() =~= seq![first@] + tail);
        assert(e@ =~= seq![kind@] + cause@);
        e
    }

    /// The outermost failure.
    pub fn kind(&self) -> (k: &ErrorKind)
        ensures
            k@ == self@[0],
    {
        &self.kind
    }
}

/// The lines that report a chain of failures: one line for each, indented
/// by its depth in the chain.
pub open spec fn log_lines(chain: Seq<KindView>) -> Seq<Seq<char>> {
    Seq::new(chain.len(), |i: int| spaces(i as nat) + message_text(chain[i]))
}

/// Reports a failure with its causes, one line for each, every cause one
/// space deeper than what it caused.
pub fn log_err(err: &Error) -> (lines: Vec<String>)
    ensures
        lines.deep_view() == log_lines(err@),
{
    let mut lines: Vec<String> = Vec::new();
    let first = err.kind.message();
    lines.push(first);
    let mut i: usize = 0;
    assert(lines.deep_view() =~= log_lines(err@).take(1));
    while i < err.causes.len()
        invariant
            i <= err.causes.len(),
            lines.len() == i + 1,
            lines.deep_view() == log_lines(err@).take(i + 1),
        decreases err.causes.len() - i,
    {
        let mut line = indent(i + 1);
        let message = err.causes[i].message();
        line.append(message.as_str());
        assert(err@[i + 1] == err.causes[i as int]@);
        lines.push(line);
        i = i + 1;
        assert(lines.deep_view() =~= log_lines(err@).take(i + 1));
    }
    assert(log_lines(err@).take(i + 1) =~= log_lines(err@));
    lines
}

/// Turns a soft failure into log lines: a success is handed on, a failure
/// is reported at the end of `log` and dropped.
pub fn ok_or_log<T>(res: Result<T, Error>, log: &mut Vec<String>) -> (kept: Option<T>)
    ensures
        match res {
            Ok(x) => kept == Some(x) && final(log).deep_view() == old(log).deep_view(),
            Err(e) => kept.is_none() && final(log).deep_view() == old(log).deep_view()
                + log_lines(e@),
        },
{
    match res {
        Ok(x) => Some(x),
        Err(e) => {
            let mut lines = log_err(&e);
            let ghost before = log.deep_view();
            let ghost added = lines.deep_view();
            log.append(&mut lines);
            assert(log.deep_view() =~= before + added);
            None
        },
    }
}

/// Marks `error` as what kept a request from the store.
pub fn upload_err(error: Error) -> (e: Error)
    ensures
        e@ == seq![KindView::Upload] + error@,
{
    Error::with_chain(error, ErrorKind::Upload)
}

} // verus!
