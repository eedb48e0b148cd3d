//! The decisions of the tree walk.
//!
//! The walk visits every entry below the root, children before their
//! directory. What it reads from the disk and what the store answers comes
//! from the caller; what to do with it is decided here. [`upload`] looks at
//! one entry and says whether it is done, has to be stored, or has to be
//! listed. [`file_uploaded`] takes the store's answer for a file.
//! [`children`] picks the entries of a listing that are walked, [`manifest`]
//! collects what became of them, [`upload_dir`] says whether the manifest
//! has to be stored, and [`dir_uploaded`] takes the store's answer for it.
//! [`finish`] writes the two links that name the finished backup.
//!
//! A failure below a directory is soft. It is written to the log, the entry
//! is left out of the manifest, and the directory is stored without it.

use vstd::prelude::*;
use vstd::string::*;
use globset::{Glob, GlobSet, GlobSetBuilder};
use std::time::SystemTime;
use crate::backupdb::{BackupDB, IndexView};
use crate::client::{
    answer_attached, answer_cap, attach_uri, dir_hash, manifest_text, mkdir_uri, node_of, outcome,
    read_attached, read_cap, serializable, uri_parses, BodyView, Dir, DirNode, Entries, Method,
    Request, RequestView, Response, Tahoe,
};
use crate::errors::{log_lines, ok_or_log, Error, ErrorKind, KindView};
use crate::meta::{index_time, FileInfo, FileKind};
use crate::models::now;

verus! {

/// A glob pattern that was parsed.
#[verifier::external_type_specification]
#[verifier::external_body]
pub struct ExGlob(Glob);

/// A list of globs that a matcher is built from.
#[verifier::external_type_specification]
#[verifier::external_body]
pub struct ExGlobSetBuilder(GlobSetBuilder);

/// A matcher for a list of globs.
#[verifier::external_type_specification]
#[verifier::external_body]
pub struct ExGlobSet(GlobSet);

/// Whether a pattern is a glob.
pub uninterp spec fn glob_parses(pattern: Seq<char>) -> bool;

/// The pattern that a glob was parsed from.
pub uninterp spec fn glob_pattern(glob: Glob) -> Seq<char>;

/// The patterns of the globs that were added to a builder, in order.
pub uninterp spec fn builder_patterns(builder: GlobSetBuilder) -> Seq<Seq<char>>;

/// Whether a matcher can be built for these patterns.
pub uninterp spec fn set_builds(patterns: Seq<Seq<char>>) -> bool;

/// The patterns that a matcher was built for, in order.
pub uninterp spec fn set_patterns(set: GlobSet) -> Seq<Seq<char>>;

/// Whether one of the patterns matches the path.
pub uninterp spec fn set_matches(patterns: Seq<Seq<char>>, path: Seq<char>) -> bool;

/// `globset::Glob::new`: parses a pattern under the default options. Whether
/// it parses depends on the pattern alone, and the glob keeps the pattern.
/// `None` stands for the parser's error.
#[verifier::external_body]
fn glob_new(pattern: &str) -> (r: Option<Glob>)
    ensures
        r.is_some() == glob_parses(pattern@),
        r.is_some() ==> glob_pattern(r.unwrap()) == pattern@,
{
    Glob::new(pattern).ok()
}

/// `globset::GlobSetBuilder::new`: a builder without globs.
#[verifier::external_body]
fn builder_new() -> (builder: GlobSetBuilder)
    ensures
        builder_patterns(builder) == Seq::<Seq<char>>::empty(),
{
    GlobSetBuilder::new()
}

/// `GlobSetBuilder::add`: the glob is added at the end.
#[verifier::external_body]
fn builder_add(builder: &mut GlobSetBuilder, glob: Glob)
    ensures
        builder_patterns(*final(builder)) == builder_patterns(*old(builder)).push(
            glob_pattern(glob),
        ),
{
    builder.add(glob);
}

/// `GlobSetBuilder::build`: a matcher for the globs that were added. Whether
/// one can be built depends on their patterns alone. `None` stands for the
/// builder's error.
#[verifier::external_body]
fn builder_build(builder: &GlobSetBuilder) -> (r: Option<GlobSet>)
    ensures
        r.is_some() == set_builds(builder_patterns(*builder)),
        r.is_some() ==> set_patterns(r.unwrap()) == builder_patterns(*builder),
{
    builder.build().ok()
}

/// `GlobSet::is_match`: whether any glob of the set matches the path. The
/// answer depends on the patterns and the path alone.
#[verifier::external_body]
fn set_is_match(set: &GlobSet, path: &str) -> (m: bool)
    ensures
        m == set_matches(set_patterns(*set), path@),
{
    set.is_match(path)
}

/// The time `at` in UTC as `chrono::DateTime::to_rfc3339` writes it, made
/// with `SystemTime::duration_since` and `chrono::DateTime::from_timestamp`.
/// `None` where `at` lies before the Unix epoch or beyond the dates that
/// `from_timestamp` accepts. Nothing is said of the text.
#[verifier::external_body]
fn rfc3339(at: SystemTime) -> Option<String> {
    let since = at.duration_since(std::time::UNIX_EPOCH).ok()?;
    let time = chrono::DateTime::from_timestamp(since.as_secs() as i64, since.subsec_nanos())?;
    Some(time.to_rfc3339())
}

/// All patterns before `upto` are globs.
pub open spec fn all_parse(patterns: Seq<Seq<char>>, upto: int) -> bool {
    forall|j: int| 0 <= j < upto ==> glob_parses(#[trigger] patterns[j])
}

/// Builds the matcher for the exclusion patterns. The first pattern that is
/// no glob is reported as such; where all are globs and still no matcher
/// can be built, that is reported.
pub fn build_globset(patterns: &Vec<String>) -> (r: Result<GlobSet, Error>)
    ensures
        match r {
            Ok(set) => {
                &&& all_parse(patterns.deep_view(), patterns.len() as int)
                &&& set_builds(patterns.deep_view())
                &&& set_patterns(set) == patterns.deep_view()
            },
            Err(e) => {
                ||| exists|i: int|
                    0 <= i < patterns.len() && all_parse(patterns.deep_view(), i) && !glob_parses(
                        #[trigger] patterns.deep_view()[i],
                    ) && e@ == seq![KindView::GlobParse(patterns.deep_view()[i])]
                ||| all_parse(patterns.deep_view(), patterns.len() as int) && !set_builds(
                    patterns.deep_view(),
                ) && e@ == seq![KindView::Msg("Failed to build globset"@)]
            },
        },
{
    let mut builder = builder_new();
    let mut i: usize = 0;
    let ghost all = patterns.deep_view();
    assert(all.take(0) =~= Seq::<Seq<char>>::empty());
    while i < patterns.len()
        invariant
            i <= patterns.len(),
            all == patterns.deep_view(),
            all.len() == patterns.len(),
            all_parse(all, i as int),
            builder_patterns(builder) == all.take(i as int),
        decreases patterns.len() - i,
    {
        assert(all[i as int] == patterns[i as int]@);
        match glob_new(patterns[i].as_str()) {
            Some(glob) => {
                builder_add(&mut builder, glob);
                assert(all.take(i + 1) =~= all.take(i as int).push(all[i as int]));
            },
            None => {
                return Err(Error::new(ErrorKind::GlobParse(patterns[i].clone())));
            },
        }
        i = i + 1;
    }
    assert(all.take(i as int) =~= all);
    match builder_build(&builder) {
        Some(set) => Ok(set),
        None => Err(Error::msg("Failed to build globset")),
    }
}

/// Whether a path is left out of the walk: a matcher is configured, and one
/// of its patterns matches the path.
pub open spec fn is_excluded(globset: Option<GlobSet>, path: Seq<char>) -> bool {
    match globset {
        Some(set) => set_matches(set_patterns(set), path),
        None => false,
    }
}

/// Whether `path` is left out of the walk.
pub fn excluded(globset: &Option<GlobSet>, path: &str) -> (r: bool)
    ensures
        r == is_excluded(*globset, path@),
{
    match globset {
        Some(set) => set_is_match(set, path),
        None => false,
    }
}

/// What is to be done with an entry.
#[derive(Debug, PartialEq, Eq)]
pub enum Step {
    /// Nothing more: the entry has this capability, or it fails for this
    /// reason.
    Done(Result<String, Error>),
    /// The entry is a file that the index does not know as it is now. Its
    /// content has to be sent with this request, and it will be recorded
    /// with this size and these times.
    StoreFile { request: Request, size: i64, ctime: i64, mtime: i64 },
    /// The entry is a directory. It has to be listed.
    ListDir,
}

/// The mathematical value of a [`Step`].
pub enum StepView {
    Done(Result<Seq<char>, Seq<KindView>>),
    StoreFile { request: RequestView, size: i64, ctime: i64, mtime: i64 },
    ListDir,
}

impl View for Step {
    type V = StepView;

    open spec fn view(&self) -> StepView {
        match self {
            Step::Done(r) => StepView::Done(outcome(*r)),
            Step::StoreFile { request, size, ctime, mtime } => StepView::StoreFile {
                request: request@,
                size: *size,
                ctime: *ctime,
                mtime: *mtime,
            },
            Step::ListDir => StepView::ListDir,
        }
    }
}

/// The step for the entry at `path` with this metadata, for a store at
/// `base` and an index `v`. In order: unreadable metadata fails the entry; a
/// link is not followed; a file is done if the index knows it with this
/// size and these times, and has to be stored if not; a directory has to
/// be listed; anything else fails.
pub open spec fn upload_step(
    v: IndexView,
    base: Seq<char>,
    path: Seq<char>,
    metadata: Result<FileInfo, Error>,
) -> StepView {
    match metadata {
        Err(cause) => StepView::Done(Err(seq![KindView::ReadMetadata(path)] + cause@)),
        Ok(info) => match info.kind {
            FileKind::Symlink => StepView::Done(
                Err(seq![KindView::Msg("not following symlink"@)]),
            ),
            FileKind::File => match v.lookup(
                path,
                info.index_size(),
                index_time(info.created),
                index_time(info.modified),
            ) {
                Some(cap) => StepView::Done(Ok(cap)),
                None => StepView::StoreFile {
                    request: RequestView { method: Method::Put, uri: base, body: BodyView::File },
                    size: info.index_size(),
                    ctime: index_time(info.created),
                    mtime: index_time(info.modified),
                },
            },
            FileKind::Dir => StepView::ListDir,
            FileKind::Other => StepView::Done(Err(seq![KindView::UnknownFile(path)])),
        },
    }
}

/// The index after the step for an entry was decided: a file was looked up,
/// which forgets a stale record of it; nothing else touches the index.
pub open spec fn upload_index(v: IndexView, path: Seq<char>, metadata: Result<FileInfo, Error>)
    -> IndexView {
    match metadata {
        Ok(info) => if info.kind == FileKind::File {
            v.after_check(
                path,
                info.index_size(),
                index_time(info.created),
                index_time(info.modified),
            )
        } else {
            v
        },
        Err(_) => v,
    }
}

/// Decides what is to be done with the entry at `path`, whose metadata was
/// read without following a link.
pub fn upload(client: &Tahoe, db: &mut BackupDB, path: &str, metadata: Result<FileInfo, Error>) -> (step:
    Step)
    requires
        old(db).wf(),
    ensures
        final(db).wf(),
        final(db).url() == old(db).url(),
        step@ == upload_step(old(db)@, client@.base, path@, metadata),
        final(db)@ == upload_index(old(db)@, path@, metadata),
{
    let info = match metadata {
        Ok(info) => info,
        Err(cause) => {
            return Step::Done(
                Err(Error::with_chain(cause, ErrorKind::ReadMetadata(String::from_str(path)))),
            );
        },
    };
    match info.kind {
        FileKind::Symlink => Step::Done(Err(Error::msg("not following symlink"))),
        FileKind::File => {
            let size = info.size();
            let ctime = info.ctime();
            let mtime = info.mtime();
            match db.check_file(path, size, ctime, mtime) {
                Some(cap) => Step::Done(Ok(cap)),
                None => Step::StoreFile { request: client.upload_file(), size, ctime, mtime },
            }
        },
        FileKind::Dir => Step::ListDir,
        FileKind::Other => Step::Done(
            Err(Error::new(ErrorKind::UnknownFile(String::from_str(path)))),
        ),
    }
}

/// The failure of a file that could not be opened.
pub fn open_failed(path: &str, cause: Error) -> (e: Error)
    ensures
        e@ == seq![KindView::FileOpen(path@)] + cause@,
{
    Error::with_chain(cause, ErrorKind::FileOpen(String::from_str(path)))
}

/// Takes the store's answer for a file. A capability is recorded in the
/// index, with the size and times the file had when it was looked up, and
/// is the file's result. Where the index cannot record it, that is written
/// to the log and the file still has its capability. Without a capability
/// the file fails, and the index is left as it is.
pub fn file_uploaded(
    db: &mut BackupDB,
    path: String,
    size: i64,
    ctime: i64,
    mtime: i64,
    answer: Result<Response, Error>,
    log: &mut Vec<String>,
) -> (r: Result<String, Error>)
    requires
        old(db).wf(),
    ensures
        final(db).wf(),
        final(db).url() == old(db).url(),
        match answer_cap(answer) {
            Ok(cap) => {
                &&& outcome(r) == Ok::<Seq<char>, Seq<KindView>>(cap)
                &&& if old(db)@.can_add(cap) {
                    &&& exists|at: SystemTime|
                        final(db)@ == #[trigger] old(db)@.with_file(
                            cap,
                            path@,
                            size,
                            ctime,
                            mtime,
                            at,
                        )
                    &&& final(log).deep_view() == old(log).deep_view()
                } else {
                    &&& final(db)@ == old(db)@
                    &&& final(log).deep_view() == old(log).deep_view() + log_lines(
                        seq![KindView::Msg("Failed to insert cap"@)],
                    )
                }
            },
            Err(chain) => {
                &&& outcome(r) == Err::<Seq<char>, Seq<KindView>>(
                    seq![KindView::FileUpload(path@)] + chain,
                )
                &&& final(db)@ == old(db)@
                &&& final(log).deep_view() == old(log).deep_view()
            },
        },
{
    match read_cap(answer) {
        Ok(cap) => {
            let recorded = db.add_file(cap.as_str(), path, size, ctime, mtime);
            ok_or_log(recorded, log);
            Ok(cap)
        },
        Err(e) => Err(Error::with_chain(e, ErrorKind::FileUpload(path))),
    }
}

/// An entry of a directory: its name, and its path.
#[derive(Debug, PartialEq, Eq)]
pub struct Child {
    pub name: String,
    pub path: String,
}

/// The entries of a listing that are walked, as pairs of name and path, in
/// the order of the listing: those that could be read and that are not
/// excluded by their path.
pub open spec fn kept_children(globset: Option<GlobSet>, entries: Seq<Result<Child, Error>>) -> Seq<
    (Seq<char>, Seq<char>),
>
    decreases entries.len(),
{
    if entries.len() == 0 {
        Seq::empty()
    } else {
        let before = kept_children(globset, entries.drop_last());
        match entries.last() {
            Ok(child) => if is_excluded(globset, child.path@) {
                before
            } else {
                before.push((child.name@, child.path@))
            },
            Err(_) => before,
        }
    }
}

/// The log lines for the entries of a listing that could not be read, in
/// the order of the listing.
pub open spec fn listing_log(entries: Seq<Result<Child, Error>>) -> Seq<Seq<char>>
    decreases entries.len(),
{
    if entries.len() == 0 {
        Seq::empty()
    } else {
        let before = listing_log(entries.drop_last());
        match entries.last() {
            Ok(_) => before,
            Err(e) => before + log_lines(e@),
        }
    }
}

/// Children as pairs of name and path.
pub open spec fn child_pairs(children: Seq<Child>) -> Seq<(Seq<char>, Seq<char>)> {
    Seq::new(children.len(), |i: int| (children[i].name@, children[i].path@))
}

/// Picks the children to walk from the listing of a directory. A listing
/// that could not be made fails the directory. An entry that could not be
/// read is written to the log and left out; an entry whose path is
/// excluded is left out silently. The rest keep their order.
pub fn children(
    globset: &Option<GlobSet>,
    listing: Result<Vec<Result<Child, Error>>, Error>,
    log: &mut Vec<String>,
) -> (r: Result<Vec<Child>, Error>)
    ensures
        match listing {
            Ok(entries) => {
                &&& r.is_ok()
                &&& child_pairs(r.unwrap()@) == kept_children(*globset, entries@)
                &&& final(log).deep_view() == old(log).deep_view() + listing_log(entries@)
            },
            Err(cause) => {
                &&& r.is_err()
                &&& r.unwrap_err()@ == seq![KindView::Msg("couldn't read dir"@)] + cause@
                &&& final(log).deep_view() == old(log).deep_view()
            },
        },
{
    let entries = match listing {
        Ok(entries) => entries,
        Err(cause) => {
            return Err(
                Error::with_chain(cause, ErrorKind::Msg(String::from_str("couldn't read dir"))),
            );
        },
    };
    let ghost all = entries@;
    let ghost log0 = log.deep_view();
    let mut kept: Vec<Child> = Vec::new();
    assert(all.take(0) =~= Seq::<Result<Child, Error>>::empty());
    assert(child_pairs(kept@) =~= kept_children(*globset, all.take(0)));
    assert(log.deep_view() =~= log0 + listing_log(all.take(0)));
    for entry in it: entries.into_iter()
        invariant
            it.seq() == all,
            child_pairs(kept@) == kept_children(*globset, all.take(it.index() as int)),
            log.deep_view() == log0 + listing_log(all.take(it.index() as int)),
    {
        let ghost i = it.index() as int;
        let ghost logi = log.deep_view();
        proof {
            assert(all.take(i + 1).drop_last() =~= all.take(i));
            assert(all.take(i + 1).last() == entry);
        }
        match ok_or_log(entry, log) {
            Some(child) => {
                if !excluded(globset, child.path.as_str()) {
                    let ghost before = child_pairs(kept@);
                    kept.push(child);
                    assert(child_pairs(kept@) =~= before.push((child.name@, child.path@)));
                }
            },
            None => {
                assert(log.deep_view() =~= log0 + listing_log(all.take(i + 1)));
            },
        }
    }
    assert(all.take(all.len() as int) =~= all);
    Ok(kept)
}

/// What became of a child: its name, the capability it got or the reason
/// it got none, and its metadata where it could be read.
#[derive(Debug, PartialEq, Eq)]
pub struct ChildResult {
    pub name: String,
    pub cap: Result<String, Error>,
    pub meta: Option<FileInfo>,
}

/// The children of the manifest: those that got a capability, in the order
/// of the results.
pub open spec fn survivors(results: Seq<ChildResult>) -> Entries
    decreases results.len(),
{
    if results.len() == 0 {
        Seq::empty()
    } else {
        let before = survivors(results.drop_last());
        let last = results.last();
        match last.cap {
            Ok(cap) => before.push((last.name@, node_of(cap@, last.meta))),
            Err(_) => before,
        }
    }
}

/// The log lines for the children that got no capability, in the order of
/// the results.
pub open spec fn failures_log(results: Seq<ChildResult>) -> Seq<Seq<char>>
    decreases results.len(),
{
    if results.len() == 0 {
        Seq::empty()
    } else {
        let before = failures_log(results.drop_last());
        match results.last().cap {
            Ok(_) => before,
            Err(e) => before + log_lines(e@),
        }
    }
}

/// Builds the manifest of a directory from what became of its children,
/// given in the order in which they were started. A child without a
/// capability is written to the log and left out; the directory does not
/// fail for it.
pub fn manifest(results: Vec<ChildResult>, log: &mut Vec<String>) -> (dir: Dir)
    ensures
        dir.wf(),
        dir@ == survivors(results@),
        final(log).deep_view() == old(log).deep_view() + failures_log(results@),
{
    let ghost all = results@;
    let ghost log0 = log.deep_view();
    let mut dir = Dir::new();
    assert(all.take(0) =~= Seq::<ChildResult>::empty());
    assert(log.deep_view() =~= log0 + failures_log(all.take(0)));
    for result in it: results.into_iter()
        invariant
            it.seq() == all,
            dir.wf(),
            dir@ == survivors(all.take(it.index() as int)),
            log.deep_view() == log0 + failures_log(all.take(it.index() as int)),
    {
        let ghost i = it.index() as int;
        proof {
            assert(all.take(i + 1).drop_last() =~= all.take(i));
            assert(all.take(i + 1).last() == result);
        }
        let ChildResult { name, cap, meta } = result;
        match ok_or_log(cap, log) {
            Some(cap) => {
                dir.push((name, DirNode::new(cap, meta)));
            },
            None => {
                assert(log.deep_view() =~= log0 + failures_log(all.take(i + 1)));
            },
        }
    }
    assert(all.take(all.len() as int) =~= all);
    dir
}

/// What is to be done with the manifest of a directory.
#[derive(Debug, PartialEq, Eq)]
pub enum DirStep {
    /// Nothing more: the directory has this capability, or it fails for
    /// this reason.
    Done(Result<String, Error>),
    /// The manifest has to be stored with this request.
    Send(Request),
}

/// The mathematical value of a [`DirStep`].
pub enum DirStepView {
    Done(Result<Seq<char>, Seq<KindView>>),
    Send(RequestView),
}

impl View for DirStep {
    type V = DirStepView;

    open spec fn view(&self) -> DirStepView {
        match self {
            DirStep::Done(r) => DirStepView::Done(outcome(*r)),
            DirStep::Send(request) => DirStepView::Send(request@),
        }
    }
}

/// The key under which the index keeps a manifest: its hash, the same 64
/// bits read as signed.
pub open spec fn dir_key(entries: Entries) -> i64 {
    dir_hash(entries) as i64
}

/// The step for a manifest with these children, for a store at `base` and
/// an index `v`: a manifest whose hash the index knows is done, with the
/// capability recorded for it; any other has to be stored.
pub open spec fn upload_dir_step(v: IndexView, base: Seq<char>, entries: Entries) -> DirStepView {
    match v.dir_cap(dir_key(entries)) {
        Some(cap) => DirStepView::Done(Ok(cap)),
        None => if serializable(entries) {
            DirStepView::Send(
                RequestView {
                    method: Method::Post,
                    uri: mkdir_uri(base),
                    body: BodyView::Bytes(vstd::utf8::encode_utf8(manifest_text(entries))),
                },
            )
        } else {
            DirStepView::Done(
                Err(
                    seq![
                        KindView::Msg("couldn't upload dir"@),
                        KindView::Msg("Failed to serialize directory"@),
                    ],
                ),
            )
        },
    }
}

/// Decides what is to be done with the manifest of a directory.
pub fn upload_dir(db: &BackupDB, client: &Tahoe, dir: &Dir) -> (step: DirStep)
    requires
        db.wf(),
        dir.wf(),
    ensures
        step@ == upload_dir_step(db@, client@.base, dir@),
{
    let hash: i64 = #[verifier::truncate] (dir.hash() as i64);
    match db.check_dir(hash) {
        Some(cap) => DirStep::Done(Ok(cap)),
        None => match client.upload_dir(dir) {
            Ok(request) => DirStep::Send(request),
            Err(e) => {
                let e = Error::with_chain(
                    e,
                    ErrorKind::Msg(String::from_str("couldn't upload dir")),
                );
                assert(e@ =~= seq![
                    KindView::Msg("couldn't upload dir"@),
                    KindView::Msg("Failed to serialize directory"@),
                ]);
                DirStep::Done(Err(e))
            },
        },
    }
}

/// Takes the store's answer for a manifest. A capability is recorded in the
/// index under the manifest's hash and is the directory's result. Without
/// a capability the directory fails, and the index is left as it is.
pub fn dir_uploaded(db: &mut BackupDB, dir: &Dir, answer: Result<Response, Error>) -> (r: Result<
    String,
    Error,
>)
    requires
        old(db).wf(),
        dir.wf(),
    ensures
        final(db).wf(),
        final(db).url() == old(db).url(),
        match answer_cap(answer) {
            Ok(cap) => {
                &&& outcome(r) == Ok::<Seq<char>, Seq<KindView>>(cap)
                &&& exists|at: SystemTime|
                    final(db)@ == #[trigger] old(db)@.with_dir(dir_key(dir@), cap, at)
            },
            Err(chain) => {
                &&& outcome(r) == Err::<Seq<char>, Seq<KindView>>(
                    seq![KindView::Msg("couldn't upload dir"@)] + chain,
                )
                &&& final(db)@ == old(db)@
            },
        },
{
    match read_cap(answer) {
        Ok(cap) => {
            let hash: i64 = #[verifier::truncate] (dir.hash() as i64);
            db.add_dir(hash, cap.as_str());
            proof {
                let at = choose|at: SystemTime|
                    db@ == #[trigger] old(db)@.with_dir(hash, cap@, at);
                assert(db@ == old(db)@.with_dir(dir_key(dir@), cap@, at));
            }
            Ok(cap)
        },
        Err(e) => Err(
            Error::with_chain(e, ErrorKind::Msg(String::from_str("couldn't upload dir"))),
        ),
    }
}

/// The name of the link to a backup that was finished at `timestamp`.
pub open spec fn archive_name(timestamp: Seq<char>) -> Seq<char> {
    "Archives/"@ + timestamp
}

/// The two requests that name a finished backup in the directory `target`:
/// one link under `Archives/` and the time, and one under `Latest`, both to
/// the root's capability.
pub fn links(client: &Tahoe, target: &str, cap: &str, timestamp: &str) -> (r: Result<
    (Request, Request),
    Error,
>)
    ensures
        match r {
            Ok(pair) => {
                &&& uri_parses(attach_uri(client@.base, target@, archive_name(timestamp@)))
                &&& uri_parses(attach_uri(client@.base, target@, "Latest"@))
                &&& pair.0@ == (RequestView {
                    method: Method::Put,
                    uri: attach_uri(client@.base, target@, archive_name(timestamp@)),
                    body: BodyView::Bytes(vstd::utf8::encode_utf8(cap@)),
                })
                &&& pair.1@ == (RequestView {
                    method: Method::Put,
                    uri: attach_uri(client@.base, target@, "Latest"@),
                    body: BodyView::Bytes(vstd::utf8::encode_utf8(cap@)),
                })
            },
            Err(e) => {
                &&& !uri_parses(attach_uri(client@.base, target@, archive_name(timestamp@)))
                    || !uri_parses(attach_uri(client@.base, target@, "Latest"@))
                &&& e@ == seq![KindView::Msg("failed to form url"@)]
            },
        },
{
    let mut name = String::from_str("Archives/");
    name.append(timestamp);
    let archive = match client.attach(target, name.as_str(), cap) {
        Ok(request) => request,
        Err(e) => {
            return Err(e);
        },
    };
    let latest = match client.attach(target, "Latest", cap) {
        Ok(request) => request,
        Err(e) => {
            return Err(e);
        },
    };
    Ok((archive, latest))
}

/// The two requests that name a backup finished now: [`links`] with the
/// present time in UTC, written as RFC 3339. Fails like [`links`], and
/// where the clock shows a time that cannot be written.
pub fn finish(client: &Tahoe, target: &str, cap: &str) -> (r: Result<(Request, Request), Error>)
    ensures
        match r {
            Ok(pair) => exists|timestamp: Seq<char>|
                {
                    &&& #[trigger] uri_parses(
                        attach_uri(client@.base, target@, archive_name(timestamp)),
                    )
                    &&& uri_parses(attach_uri(client@.base, target@, "Latest"@))
                    &&& pair.0@ == (RequestView {
                        method: Method::Put,
                        uri: attach_uri(client@.base, target@, archive_name(timestamp)),
                        body: BodyView::Bytes(vstd::utf8::encode_utf8(cap@)),
                    })
                    &&& pair.1@ == (RequestView {
                        method: Method::Put,
                        uri: attach_uri(client@.base, target@, "Latest"@),
                        body: BodyView::Bytes(vstd::utf8::encode_utf8(cap@)),
                    })
                },
            Err(e) => e@ == seq![KindView::Msg("failed to form url"@)] || e@ == seq![
                KindView::Msg("system time before Unix epoch"@),
            ],
        },
{
    match rfc3339(now()) {
        Some(timestamp) => links(client, target, cap, timestamp.as_str()),
        None => Err(Error::msg("system time before Unix epoch")),
    }
}

/// Takes the store's answer for one of the two links. The backup fails
/// unless the link was made.
pub fn link_made(answer: Result<Response, Error>) -> (r: Result<(), Error>)
    ensures
        match answer_attached(answer) {
            Ok(_) => r.is_ok(),
            Err(chain) => r.is_err() && r.unwrap_err()@ == seq![
                KindView::Msg("failed to attach archive"@),
            ] + chain,
        },
{
    match read_attached(answer) {
        Ok(_) => Ok(()),
        Err(e) => Err(
            Error::with_chain(e, ErrorKind::Msg(String::from_str("failed to attach archive"))),
        ),
    }
}

/// A link is never followed, whatever the index holds and wherever the
/// link lies: its step is a failure. As the result of a child that failure
/// is written to the log, and the manifest of the parent is what it is
/// without that child.
pub proof fn law_symlink_is_left_out(
    v: IndexView,
    base: Seq<char>,
    path: Seq<char>,
    info: FileInfo,
    siblings: Seq<ChildResult>,
    link: ChildResult,
)
    requires
        info.kind == FileKind::Symlink,
        outcome(link.cap) == Err::<Seq<char>, Seq<KindView>>(
            seq![KindView::Msg("not following symlink"@)],
        ),
    ensures
        upload_step(v, base, path, Ok(info)) == StepView::Done(
            Err(seq![KindView::Msg("not following symlink"@)]),
        ),
        upload_index(v, path, Ok(info)) == v,
        survivors(siblings.push(link)) == survivors(siblings),
        failures_log(siblings.push(link)) == failures_log(siblings) + log_lines(
            seq![KindView::Msg("not following symlink"@)],
        ),
{
    assert(siblings.push(link).drop_last() =~= siblings);
}

/// A child without a capability is left out of the manifest, and a child
/// with one is its last entry: the manifest never fails for a child.
pub proof fn law_failed_child_is_left_out(siblings: Seq<ChildResult>, child: ChildResult)
    ensures
        child.cap.is_err() ==> survivors(siblings.push(child)) == survivors(siblings),
        child.cap.is_ok() ==> survivors(siblings.push(child)) == survivors(siblings).push(
            (child.name@, node_of(child.cap.unwrap()@, child.meta)),
        ),
{
    assert(siblings.push(child).drop_last() =~= siblings);
}

/// A directory all of whose entries are excluded has no children to walk,
/// and its manifest is the empty one.
pub proof fn law_all_excluded_is_empty(globset: Option<GlobSet>, entries: Seq<Result<Child, Error>>)
    requires
        forall|i: int|
            0 <= i < entries.len() ==> (#[trigger] entries[i]).is_ok() ==> is_excluded(
                globset,
                entries[i].unwrap().path@,
            ),
    ensures
        kept_children(globset, entries) == Seq::<(Seq<char>, Seq<char>)>::empty(),
        survivors(Seq::<ChildResult>::empty()) == Entries::empty(),
        manifest_text(survivors(Seq::<ChildResult>::empty())) == "{"@ + "}"@,
    decreases entries.len(),
{
    if entries.len() > 0 {
        let init = entries.drop_last();
        assert forall|i: int| 0 <= i < init.len() && (#[trigger] init[i]).is_ok() implies is_excluded(
            globset,
            init[i].unwrap().path@,
        ) by {
            assert(init[i] == entries[i]);
        }
        law_all_excluded_is_empty(globset, init);
        assert(entries[entries.len() - 1] == entries.last());
    }
    assert(manifest_text(Entries::empty()) =~= "{"@ + "}"@);
}

/// The entry at `i` could be read, is not excluded, and has this name and
/// path.
pub open spec fn is_kept(
    globset: Option<GlobSet>,
    entries: Seq<Result<Child, Error>>,
    i: int,
    child: (Seq<char>, Seq<char>),
) -> bool {
    &&& 0 <= i < entries.len()
    &&& entries[i].is_ok()
    &&& !is_excluded(globset, entries[i].unwrap().path@)
    &&& child == (entries[i].unwrap().name@, entries[i].unwrap().path@)
}

/// The place in the listing of the child that is walked as number `a`.
pub open spec fn origin(globset: Option<GlobSet>, entries: Seq<Result<Child, Error>>, a: int) -> int
    decreases entries.len(),
{
    if entries.len() == 0 {
        0
    } else if a < kept_children(globset, entries.drop_last()).len() {
        origin(globset, entries.drop_last(), a)
    } else {
        entries.len() - 1
    }
}

/// The children that are walked keep the order of the listing: each is an
/// entry of the listing that could be read and is not excluded, and a child
/// that is walked later stands later in the listing.
pub proof fn law_children_keep_order(globset: Option<GlobSet>, entries: Seq<Result<Child, Error>>)
    ensures
        kept_children(globset, entries).len() <= entries.len(),
        forall|a: int|
            0 <= a < kept_children(globset, entries).len() ==> is_kept(
                globset,
                entries,
                #[trigger] origin(globset, entries, a),
                kept_children(globset, entries)[a],
            ),
        forall|a: int, b: int|
            0 <= a < b < kept_children(globset, entries).len() ==> #[trigger] origin(
                globset,
                entries,
                a,
            ) < #[trigger] origin(globset, entries, b),
    decreases entries.len(),
{
    let kept = kept_children(globset, entries);
    if entries.len() > 0 {
        let init = entries.drop_last();
        let before = kept_children(globset, init);
        law_children_keep_order(globset, init);
        assert forall|a: int| 0 <= a < kept.len() implies is_kept(
            globset,
            entries,
            #[trigger] origin(globset, entries, a),
            kept[a],
        ) by {
            if a < before.len() {
                let i = origin(globset, init, a);
                assert(is_kept(globset, init, i, before[a]));
                assert(init[i] == entries[i]);
                assert(before[a] == kept[a]);
            }
        }
        assert forall|a: int, b: int| 0 <= a < b < kept.len() implies #[trigger] origin(
            globset,
            entries,
            a,
        ) < #[trigger] origin(globset, entries, b) by {
            assert(kept.len() <= before.len() + 1);
            assert(a < before.len());
            assert(origin(globset, entries, a) == origin(globset, init, a));
            assert(is_kept(globset, init, origin(globset, init, a), before[a]));
            if b < before.len() {
                assert(origin(globset, entries, b) == origin(globset, init, b));
                assert(origin(globset, init, a) < origin(globset, init, b));
            } else {
                assert(origin(globset, entries, b) == entries.len() - 1);
            }
        }
    }
}

} // verus!
