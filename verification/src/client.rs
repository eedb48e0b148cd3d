//! Directory manifests and the protocol of the store.
//!
//! A [`Dir`] is the manifest of one directory: its children in the order
//! they were pushed, and a hash of their names and capabilities that is kept
//! up to date with every push. [`Tahoe`] knows the store's address and
//! writes the three requests that a backup sends to it; it also reads the
//! store's answers. Sending and receiving is the caller's part.

use vstd::prelude::*;
use vstd::string::*;
use vstd::utf8::{decode_utf8, encode_utf8, valid_utf8};
use seahash::SeaHasher;
use std::hash::Hasher;
use crate::errors::{Error, ErrorKind, KindView};
use crate::meta::{manifest_time, since_epoch, FileInfo};
use crate::text::{decimal, decimal_text, starts_with};

verus! {

/// The state of a running SeaHash computation.
#[verifier::external_type_specification]
#[verifier::external_body]
pub struct ExSeaHasher(SeaHasher);

/// The bytes that were written to a hasher since it was made, in order.
pub uninterp spec fn hasher_input(h: SeaHasher) -> Seq<u8>;

/// The SeaHash of a byte sequence, under the seed that the function
/// documents as its default.
pub uninterp spec fn sea_hash(bytes: Seq<u8>) -> u64;

/// `seahash::SeaHasher::new`: a hasher with the default seed, to which
/// nothing was written.
#[verifier::external_body]
fn hasher_new() -> (h: SeaHasher)
    ensures
        hasher_input(h) == Seq::<u8>::empty(),
{
    SeaHasher::new()
}

/// `SeaHasher::write`: the bytes are added to what was written. The hasher
/// buffers a trailing partial block, so only the concatenation of all
/// writes matters, not where one write ends and the next begins.
#[verifier::external_body]
fn hasher_write(h: &mut SeaHasher, bytes: &[u8])
    ensures
        hasher_input(*final(h)) == hasher_input(*old(h)) + bytes@,
{
    h.write(bytes)
}

/// `SeaHasher::finish`: the hash of all that was written. The hasher is left
/// as it was.
#[verifier::external_body]
fn hasher_finish(h: &SeaHasher) -> (digest: u64)
    ensures
        digest == sea_hash(hasher_input(*h)),
{
    h.finish()
}

/// Whether a child is a directory or a file.
#[derive(Clone, Copy, Debug, PartialEq, Eq)]
pub enum NodeType {
    Dir,
    File,
}

/// The capability of a child and the times that are carried along with it.
#[derive(Debug, PartialEq, Eq)]
pub struct DirNodeInner {
    pub ro_uri: String,
    pub metadata: Metadata,
}

/// The times that a manifest carries for a child, each where it is known.
/// They are not part of the directory's hash.
#[derive(Clone, Copy, Debug, PartialEq, Eq)]
pub struct Metadata {
    pub ctime: Option<u64>,
    pub mtime: Option<u64>,
}

/// One child of a directory as its manifest describes it.
#[derive(Debug, PartialEq, Eq)]
pub struct DirNode(pub NodeType, pub DirNodeInner);

/// The mathematical value of a [`DirNode`].
pub struct NodeView {
    pub node_type: NodeType,
    pub ro_uri: Seq<char>,
    pub metadata: Metadata,
}

/// A directory capability begins with `URI:DIR`; every other capability is
/// that of a file.
pub open spec fn is_dir_cap(cap: Seq<char>) -> bool {
    "URI:DIR"@.is_prefix_of(cap)
}

/// The kind of node that a capability stands for.
pub open spec fn node_type_of(cap: Seq<char>) -> NodeType {
    if is_dir_cap(cap) {
        NodeType::Dir
    } else {
        NodeType::File
    }
}

/// The node for a child with the capability `cap` and the metadata `meta`,
/// where it could be read.
pub open spec fn node_of(cap: Seq<char>, meta: Option<FileInfo>) -> NodeView {
    NodeView {
        node_type: node_type_of(cap),
        ro_uri: cap,
        metadata: match meta {
            Some(info) => Metadata {
                ctime: manifest_time(info.created),
                mtime: manifest_time(info.modified),
            },
            None => Metadata { ctime: None, mtime: None },
        },
    }
}

impl View for DirNode {
    type V = NodeView;

    open spec fn view(&self) -> NodeView {
        NodeView { node_type: self.0, ro_uri: self.1.ro_uri@, metadata: self.1.metadata }
    }
}

impl DeepView for DirNode {
    type V = NodeView;

    open spec fn deep_view(&self) -> NodeView {
        self@
    }
}

impl Clone for DirNode {
    fn clone(&self) -> (r: Self)
        ensures
            r@ == self@,
    {
        DirNode(self.0, DirNodeInner { ro_uri: self.1.ro_uri.clone(), metadata: self.1.metadata })
    }
}

impl DirNode {
    /// The node for a child that was stored under `ro_uri`. Its kind is
    /// read from the capability; its times are taken from `meta`, where the
    /// metadata could be read.
    pub fn new(ro_uri: String, meta: Option<FileInfo>) -> (node: DirNode)
        ensures
            node@ == node_of(ro_uri@, meta),
    {
        let nodetype = if starts_with(ro_uri.as_str(), "URI:DIR") {
            NodeType::Dir
        } else {
            NodeType::File
        };
        let metadata = match meta {
            Some(info) => Metadata {
                ctime: since_epoch(info.created),
                mtime: since_epoch(info.modified),
            },
            None => Metadata { ctime: None, mtime: None },
        };
        DirNode(nodetype, DirNodeInner { ro_uri, metadata })
    }

    /// The capability of the child.
    pub fn uri(&self) -> (cap: &str)
        ensures
            cap@ == self@.ro_uri,
    {
        self.1.ro_uri.as_str()
    }
}

/// The children of a directory: name and node, in the order of the manifest.
pub type Entries = Seq<(Seq<char>, NodeView)>;

/// What a manifest's hash is computed from: for each child in order the
/// UTF-8 bytes of its name, then those of its capability.
pub open spec fn hashed_bytes(entries: Entries) -> Seq<u8>
    decreases entries.len(),
{
    if entries.len() == 0 {
        Seq::empty()
    } else {
        hashed_bytes(entries.drop_last()) + encode_utf8(entries.last().0) + encode_utf8(
            entries.last().1.ro_uri,
        )
    }
}

/// The hash of a manifest with these children.
pub open spec fn dir_hash(entries: Entries) -> u64 {
    sea_hash(hashed_bytes(entries))
}

/// The names and capabilities of the children, without their metadata.
pub open spec fn names_and_caps(entries: Entries) -> Seq<(Seq<char>, Seq<char>)> {
    Seq::new(entries.len(), |i: int| (entries[i].0, entries[i].1.ro_uri))
}

/// A string as JSON text: quoted, with the characters that JSON does not
/// allow in a string escaped.
pub uninterp spec fn json_string(s: Seq<char>) -> Option<Seq<char>>;

/// `serde_json::to_string` on a string slice: the JSON text of the string.
/// The text is a function of the string alone. `None` stands for the
/// serializer's error.
#[verifier::external_body]
fn quote_json(s: &str) -> (r: Option<String>)
    ensures
        r.deep_view() == json_string(s@),
{
    serde_json::to_string(s).ok()
}

/// The tag that a manifest gives a node of this kind.
pub open spec fn tag_text(t: NodeType) -> Seq<char> {
    match t {
        NodeType::Dir => "\"dirnode\""@,
        NodeType::File => "\"filenode\""@,
    }
}

/// The members of the `metadata` object: the times that are known, the
/// creation time first.
pub open spec fn metadata_text(m: Metadata) -> Seq<char> {
    match (m.ctime, m.mtime) {
        (Some(c), Some(t)) => "\"ctime\":"@ + decimal_text(c as nat) + ",\"mtime\":"@
            + decimal_text(t as nat),
        (Some(c), None) => "\"ctime\":"@ + decimal_text(c as nat),
        (None, Some(t)) => "\"mtime\":"@ + decimal_text(t as nat),
        (None, None) => Seq::empty(),
    }
}

/// One member of a manifest: the child's name, and as its value the pair of
/// the node's tag and an object with the capability and the metadata.
pub open spec fn entry_text(entry: (Seq<char>, NodeView)) -> Seq<char> {
    json_string(entry.0).unwrap() + ":["@ + tag_text(entry.1.node_type) + ",{\"ro_uri\":"@
        + json_string(entry.1.ro_uri).unwrap() + ",\"metadata\":{"@ + metadata_text(
        entry.1.metadata,
    ) + "}}]"@
}

/// The members of a manifest in order, with commas between them.
pub open spec fn entries_text(entries: Entries) -> Seq<char>
    decreases entries.len(),
{
    if entries.len() == 0 {
        Seq::empty()
    } else if entries.len() == 1 {
        entry_text(entries[0])
    } else {
        entries_text(entries.drop_last()) + ","@ + entry_text(entries.last())
    }
}

/// A manifest as JSON text: one object, without white space, whose members
/// are the children in order.
pub open spec fn manifest_text(entries: Entries) -> Seq<char> {
    "{"@ + entries_text(entries) + "}"@
}

/// Every name and every capability of the manifest has a JSON text.
pub open spec fn serializable(entries: Entries) -> bool {
    forall|i: int|
        0 <= i < entries.len() ==> json_string((#[trigger] entries[i]).0).is_some() && json_string(
            entries[i].1.ro_uri,
        ).is_some()
}

fn write_metadata(out: &mut String, m: &Metadata)
    ensures
        final(out)@ == old(out)@ + metadata_text(*m),
{
    let ghost before = out@;
    match m.ctime {
        Some(c) => {
            out.append("\"ctime\":");
            let number = decimal(c);
            out.append(number.as_str());
        },
        None => {},
    }
    match m.mtime {
        Some(t) => {
            if m.ctime.is_some() {
                out.append(",\"mtime\":");
            } else {
                out.append("\"mtime\":");
            }
            let number = decimal(t);
            out.append(number.as_str());
        },
        None => {},
    }
    assert(out@ =~= before + metadata_text(*m));
}

fn write_entry(out: &mut String, name: &str, node: &DirNode) -> (ok: bool)
    ensures
        ok == (json_string(name@).is_some() && json_string(node@.ro_uri).is_some()),
        ok ==> final(out)@ == old(out)@ + entry_text((name@, node@)),
{
    let ghost before = out@;
    let quoted_name = match quote_json(name) {
        Some(q) => q,
        None => {
            return false;
        },
    };
    let quoted_cap = match quote_json(node.uri()) {
        Some(q) => q,
        None => {
            return false;
        },
    };
    out.append(quoted_name.as_str());
    out.append(":[");
    match node.0 {
        NodeType::Dir => {
            out.append("\"dirnode\"");
        },
        NodeType::File => {
            out.append("\"filenode\"");
        },
    }
    out.append(",{\"ro_uri\":");
    out.append(quoted_cap.as_str());
    out.append(",\"metadata\":{");
    let ghost head = out@;
    write_metadata(out, &node.1.metadata);
    out.append("}}]");
    assert(out@ =~= before + entry_text((name@, node@)));
    true
}

/// The manifest of a directory.
pub struct Dir {
    inner: Vec<(String, DirNode)>,
    hasher: SeaHasher,
}

impl View for Dir {
    type V = Entries;

    closed spec fn view(&self) -> Entries {
        self.inner.deep_view()
    }
}

impl Dir {
    /// The running hash has seen exactly the children of the manifest.
    pub closed spec fn wf(&self) -> bool {
        hasher_input(self.hasher) == hashed_bytes(self@)
    }

    /// A manifest without children.
    pub fn new() -> (dir: Dir)
        ensures
            dir.wf(),
            dir@ == Entries::empty(),
    {
        let dir = Dir { inner: Vec::new(), hasher: hasher_new() };
        assert(dir@ =~= Entries::empty());
        dir
    }

    /// Adds a child at the end of the manifest and feeds its name and its
    /// capability to the hash.
    pub fn push(&mut self, value: (String, DirNode))
        requires
            old(self).wf(),
        ensures
            final(self).wf(),
            final(self)@ == old(self)@.push((value.0@, value.1@)),
    {
        hasher_write(&mut self.hasher, value.0.as_str().as_bytes());
        hasher_write(&mut self.hasher, value.1.uri().as_bytes());
        self.inner.push(value);
        proof {
            let after = old(self)@.push((value.0@, value.1@));
            assert(self@ =~= after);
            assert(after.drop_last() =~= old(self)@);
        }
    }

    /// The hash of the manifest.
    pub fn hash(&self) -> (h: u64)
        requires
            self.wf(),
        ensures
            h == dir_hash(self@),
    {
        hasher_finish(&self.hasher)
    }

    /// The number of children.
    pub fn len(&self) -> (n: usize)
        ensures
            n == self@.len(),
    {
        self.inner.len()
    }

    /// The name of the child at `i`.
    pub fn name(&self, i: usize) -> (name: &str)
        requires
            i < self@.len(),
        ensures
            name@ == self@[i as int].0,
    {
        self.inner[i].0.as_str()
    }

    /// The node of the child at `i`.
    pub fn node(&self, i: usize) -> (node: &DirNode)
        requires
            i < self@.len(),
        ensures
            node@ == self@[i as int].1,
    {
        &self.inner[i].1
    }

    /// The manifest as JSON text. Fails where a name or a capability
    /// cannot be written as JSON.
    pub fn serialize(&self) -> (r: Result<String, Error>)
        ensures
            match r {
                Ok(text) => serializable(self@) && text@ == manifest_text(self@),
                Err(e) => !serializable(self@) && e@ == seq![
                    KindView::Msg("Failed to serialize directory"@),
                ],
            },
    {
        let mut out = String::from_str("{");
        let mut i: usize = 0;
        assert(out@ =~= "{"@ + entries_text(self@.take(0)));
        while i < self.inner.len()
            invariant
                i <= self.inner.len(),
                self@.len() == self.inner.len(),
                serializable(self@.take(i as int)),
                out@ == "{"@ + entries_text(self@.take(i as int)),
            decreases self.inner.len() - i,
        {
            let ghost done = self@.take(i as int);
            let ghost next = self@.take(i + 1);
            proof {
                assert(next.drop_last() =~= done);
                assert(next.last() == self@[i as int]);
            }
            if i > 0 {
                out.append(",");
            }
            let ok = write_entry(&mut out, self.inner[i].0.as_str(), &self.inner[i].1);
            if !ok {
                return Err(Error::msg("Failed to serialize directory"));
            }
            proof {
                assert(out@ =~= "{"@ + entries_text(next));
                assert forall|j: int| 0 <= j < next.len() implies json_string(
                    (#[trigger] next[j]).0,
                ).is_some() && json_string(next[j].1.ro_uri).is_some() by {
                    if j < i {
                        assert(done[j] == next[j]);
                    }
                }
            }
            i = i + 1;
        }
        assert(self@.take(i as int) =~= self@);
        out.append("}");
        Ok(out)
    }

    /// The manifest of the given children, in their order.
    pub fn from_iter(items: Vec<(String, DirNode)>) -> (dir: Dir)
        ensures
            dir.wf(),
            dir@ == items.deep_view(),
    {
        let mut dir = Dir::new();
        let ghost all = items.deep_view();
        for item in it: items.into_iter()
            invariant
                dir.wf(),
                it.seq().len() == all.len(),
                forall|j: int| 0 <= j < all.len() ==> all[j] == (it.seq()[j].0@, it.seq()[j].1@),
                dir@ == all.take(it.index() as int),
        {
            dir.push(item);
            assert(dir@ =~= all.take(it.index() + 1));
        }
        assert(all.take(all.len() as int) =~= all);
        dir
    }
}

/// Whether a text is a URI that a request can be sent to.
pub uninterp spec fn uri_parses(s: Seq<char>) -> bool;

/// Whether `hyper::Uri::from_str` accepts the text. What it accepts is a
/// function of the text alone.
#[verifier::external_body]
fn parse_uri(s: &str) -> (ok: bool)
    ensures
        ok == uri_parses(s@),
{
    s.parse::<hyper::Uri>().is_ok()
}

/// `String::from_utf8`: the text that the bytes encode, if they are
/// well-formed UTF-8, and nothing if they are not.
#[verifier::external_body]
fn string_from_utf8(bytes: Vec<u8>) -> (r: Option<String>)
    ensures
        r.is_some() == valid_utf8(bytes@),
        r.is_some() ==> r.unwrap()@ == decode_utf8(bytes@),
{
    String::from_utf8(bytes).ok()
}

/// The method of a request.
#[derive(Clone, Copy, Debug, PartialEq, Eq)]
pub enum Method {
    Put,
    Post,
}

/// The body of a request: bytes that are at hand, or the content of the
/// file that is being stored, which the sender reads as it goes.
#[derive(Debug, PartialEq, Eq)]
pub enum Body {
    Bytes(Vec<u8>),
    File,
}

/// A request to the store.
#[derive(Debug, PartialEq, Eq)]
pub struct Request {
    pub method: Method,
    pub uri: String,
    pub body: Body,
}

/// The mathematical value of a [`Body`].
pub enum BodyView {
    Bytes(Seq<u8>),
    File,
}

/// The mathematical value of a [`Request`].
pub struct RequestView {
    pub method: Method,
    pub uri: Seq<char>,
    pub body: BodyView,
}

impl View for Body {
    type V = BodyView;

    open spec fn view(&self) -> BodyView {
        match self {
            Body::Bytes(b) => BodyView::Bytes(b@),
            Body::File => BodyView::File,
        }
    }
}

impl View for Request {
    type V = RequestView;

    open spec fn view(&self) -> RequestView {
        RequestView { method: self.method, uri: self.uri@, body: self.body@ }
    }
}

/// The store's address where none is given.
pub open spec fn host_text(base: Option<&str>) -> Seq<char> {
    match base {
        Some(host) => host@,
        None => "127.0.0.1:3456"@,
    }
}

/// The URI that files are stored at, for a store at `host`.
pub open spec fn base_uri(host: Seq<char>) -> Seq<char> {
    "http://"@ + host + "/uri"@
}

/// The URI that creates an immutable directory.
pub open spec fn mkdir_uri(base: Seq<char>) -> Seq<char> {
    base + "?t=mkdir-immutable"@
}

/// The URI that names the child `path` of the directory `dircap`. Both are
/// put into it as they are.
pub open spec fn attach_uri(base: Seq<char>, dircap: Seq<char>, path: Seq<char>) -> Seq<char> {
    base + "/"@ + dircap + "/"@ + path + "?t=uri"@
}

/// A status from 200 to 299.
pub open spec fn is_success(status: u16) -> bool {
    200 <= status < 300
}

/// The largest piece in which the content of a file is sent: 1 MiB.
pub const CHUNK_SIZE: usize = 1024 * 1024;

/// The client of a store.
pub struct Tahoe {
    threads: usize,
    base: String,
}

/// The mathematical value of a [`Tahoe`].
pub struct TahoeView {
    /// How many files are read at once.
    pub threads: usize,
    /// The URI that files are stored at.
    pub base: Seq<char>,
}

impl View for Tahoe {
    type V = TahoeView;

    closed spec fn view(&self) -> TahoeView {
        TahoeView { threads: self.threads, base: self.base@ }
    }
}

impl Tahoe {
    /// A client for the store at `base`, a host and a port, or at
    /// `127.0.0.1:3456` where none is given. It reads `num_threads` files at
    /// once. Fails where the address does not make a URI.
    pub fn new(num_threads: usize, base: Option<&str>) -> (r: Result<Tahoe, Error>)
        requires
            num_threads >= 1,
        ensures
            match r {
                Ok(client) => {
                    &&& uri_parses(base_uri(host_text(base)))
                    &&& uri_parses(mkdir_uri(base_uri(host_text(base))))
                    &&& client@ == TahoeView {
                        threads: num_threads,
                        base: base_uri(host_text(base)),
                    }
                },
                Err(e) => if !uri_parses(base_uri(host_text(base))) {
                    e@ == seq![KindView::Msg("failed to parse base"@)]
                } else {
                    &&& !uri_parses(mkdir_uri(base_uri(host_text(base))))
                    &&& e@ == seq![KindView::Msg("failed to add mkdir"@)]
                },
            },
    {
        let host = match base {
            Some(host) => host,
            None => "127.0.0.1:3456",
        };
        let mut base_str = String::from_str("http://");
        base_str.append(host);
        base_str.append("/uri");
        assert(base_str@ =~= base_uri(host_text(base)));
        if !parse_uri(base_str.as_str()) {
            return Err(Error::msg("failed to parse base"));
        }
        let mut dir_uri = base_str.clone();
        dir_uri.append("?t=mkdir-immutable");
        if !parse_uri(dir_uri.as_str()) {
            return Err(Error::msg("failed to add mkdir"));
        }
        Ok(Tahoe { threads: num_threads, base: base_str })
    }

    /// How many files are read at once, which is also how many children of
    /// a directory are worked on at once.
    pub fn threads(&self) -> (n: usize)
        ensures
            n == self@.threads,
    {
        self.threads
    }

    /// The request that binds `filecap` to the name `path` in the mutable
    /// directory `dircap`. Fails where the names do not make a URI.
    pub fn attach(&self, dircap: &str, path: &str, filecap: &str) -> (r: Result<Request, Error>)
        ensures
            match r {
                Ok(request) => uri_parses(attach_uri(self@.base, dircap@, path@)) && request@
                    == (RequestView {
                    method: Method::Put,
                    uri: attach_uri(self@.base, dircap@, path@),
                    body: BodyView::Bytes(encode_utf8(filecap@)),
                }),
                Err(e) => !uri_parses(attach_uri(self@.base, dircap@, path@)) && e@ == seq![
                    KindView::Msg("failed to form url"@),
                ],
            },
    {
        let mut uri = self.base.clone();
        uri.append("/");
        uri.append(dircap);
        uri.append("/");
        uri.append(path);
        uri.append("?t=uri");
        assert(uri@ =~= attach_uri(self@.base, dircap@, path@));
        if !parse_uri(uri.as_str()) {
            return Err(Error::msg("failed to form url"));
        }
        Ok(Request { method: Method::Put, uri, body: Body::Bytes(filecap.as_bytes_vec()) })
    }

    /// The request that stores the manifest `dir` as an immutable
    /// directory. Fails where the manifest cannot be written as JSON.
    pub fn upload_dir(&self, dir: &Dir) -> (r: Result<Request, Error>)
        ensures
            match r {
                Ok(request) => serializable(dir@) && request@ == (RequestView {
                    method: Method::Post,
                    uri: mkdir_uri(self@.base),
                    body: BodyView::Bytes(encode_utf8(manifest_text(dir@))),
                }),
                Err(e) => !serializable(dir@) && e@ == seq![
                    KindView::Msg("Failed to serialize directory"@),
                ],
            },
    {
        match dir.serialize() {
            Ok(text) => {
                let mut uri = self.base.clone();
                uri.append("?t=mkdir-immutable");
                Ok(
                    Request {
                        method: Method::Post,
                        uri,
                        body: Body::Bytes(text.as_str().as_bytes_vec()),
                    },
                )
            },
            Err(e) => Err(e),
        }
    }

    /// The request that stores the content of a file.
    pub fn upload_file(&self) -> (request: Request)
        ensures
            request@ == (RequestView {
                method: Method::Put,
                uri: self@.base,
                body: BodyView::File,
            }),
    {
        Request { method: Method::Put, uri: self.base.clone(), body: Body::File }
    }
}

/// What the store answered: the status and the body.
#[derive(Debug, PartialEq, Eq)]
pub struct Response {
    pub status: u16,
    pub body: Vec<u8>,
}

/// The capability that an answer to an upload carries. Where no answer
/// arrived the failure is an [`ErrorKind::Upload`], caused by what kept it
/// from arriving; a status that is no success is an
/// [`ErrorKind::StoreStatus`]; a body that is not UTF-8 is an
/// [`ErrorKind::Decode`]; else the body is the capability.
pub open spec fn answer_cap(answer: Result<Response, Error>) -> Result<Seq<char>, Seq<KindView>> {
    match answer {
        Err(e) => Err(seq![KindView::Upload] + e@),
        Ok(response) => if !is_success(response.status) {
            Err(seq![KindView::StoreStatus(response.status)])
        } else if !valid_utf8(response.body@) {
            Err(seq![KindView::Decode])
        } else {
            Ok(decode_utf8(response.body@))
        },
    }
}

/// Whether an answer to an attach request says that the link was made: it
/// arrived, and its status is a success.
pub open spec fn answer_attached(answer: Result<Response, Error>) -> Result<(), Seq<KindView>> {
    match answer {
        Err(e) => Err(seq![KindView::Upload] + e@),
        Ok(response) => if !is_success(response.status) {
            Err(seq![KindView::StoreStatus(response.status)])
        } else {
            Ok(())
        },
    }
}

/// A result as contracts speak of it: the text of the capability, or the
/// chain of failures.
pub open spec fn outcome(r: Result<String, Error>) -> Result<Seq<char>, Seq<KindView>> {
    match r {
        Ok(cap) => Ok(cap@),
        Err(e) => Err(e@),
    }
}

/// Reads the capability from the store's answer to an upload.
pub fn read_cap(answer: Result<Response, Error>) -> (r: Result<String, Error>)
    ensures
        outcome(r) == answer_cap(answer),
{
    match answer {
        Err(e) => Err(crate::errors::upload_err(e)),
        Ok(response) => {
            let Response { status, body } = response;
            if status < 200 || status >= 300 {
                return Err(Error::new(ErrorKind::StoreStatus(status)));
            }
            match string_from_utf8(body) {
                Some(cap) => Ok(cap),
                None => Err(Error::new(ErrorKind::Decode)),
            }
        },
    }
}

/// Reads the store's answer to an attach request.
pub fn read_attached(answer: Result<Response, Error>) -> (r: Result<(), Error>)
    ensures
        match r {
            Ok(_) => answer_attached(answer) == Ok::<(), Seq<KindView>>(()),
            Err(e) => answer_attached(answer) == Err::<(), Seq<KindView>>(e@),
        },
{
    match answer {
        Err(e) => Err(crate::errors::upload_err(e)),
        Ok(response) => {
            if response.status < 200 || response.status >= 300 {
                Err(Error::new(ErrorKind::StoreStatus(response.status)))
            } else {
                Ok(())
            }
        },
    }
}

/// What has happened to the content of a file on its way to the store.
#[derive(Clone, Copy, Debug, PartialEq, Eq)]
pub enum FeedEvent {
    /// Nothing yet.
    Started,
    /// This many bytes were read.
    Read(usize),
    /// Reading failed.
    ReadFailed,
    /// The piece read last was taken over.
    Sent,
    /// The piece read last could not be handed over.
    SendFailed,
}

/// What to do next with the content of a file.
#[derive(Clone, Copy, Debug, PartialEq, Eq)]
pub enum FeedAction {
    /// Read at most this many bytes.
    Read(usize),
    /// Hand over the first so many of the bytes just read, and wait until
    /// they are taken.
    Send(usize),
    /// The file has ended: close the body.
    Close,
    /// Give up, leaving the body as it is.
    Abort,
}

/// The next step for each event: read a piece, send what was read, close at
/// the end of the file, and give up on the first failure. No piece is
/// larger than [`CHUNK_SIZE`].
pub open spec fn feed_step(event: FeedEvent) -> FeedAction {
    match event {
        FeedEvent::Started => FeedAction::Read(CHUNK_SIZE),
        FeedEvent::Read(n) => if n == 0 {
            FeedAction::Close
        } else if n <= CHUNK_SIZE {
            FeedAction::Send(n)
        } else {
            FeedAction::Send(CHUNK_SIZE)
        },
        FeedEvent::ReadFailed => FeedAction::Abort,
        FeedEvent::Sent => FeedAction::Read(CHUNK_SIZE),
        FeedEvent::SendFailed => FeedAction::Abort,
    }
}

/// Decides the next step of streaming a file to the store.
pub fn feed(event: FeedEvent) -> (action: FeedAction)
    ensures
        action == feed_step(event),
        action matches FeedAction::Read(n) ==> n <= CHUNK_SIZE,
        action matches FeedAction::Send(n) ==> 0 < n <= CHUNK_SIZE,
{
    match event {
        FeedEvent::Started => FeedAction::Read(CHUNK_SIZE),
        FeedEvent::Read(n) => if n == 0 {
            FeedAction::Close
        } else if n <= CHUNK_SIZE {
            FeedAction::Send(n)
        } else {
            FeedAction::Send(CHUNK_SIZE)
        },
        FeedEvent::ReadFailed => FeedAction::Abort,
        FeedEvent::Sent => FeedAction::Read(CHUNK_SIZE),
        FeedEvent::SendFailed => FeedAction::Abort,
    }
}

/// The hash of a manifest is a function of the names and the capabilities
/// of its children, in their order. The metadata has no part in it.
pub proof fn law_hash_ignores_metadata(a: Entries, b: Entries)
    requires
        names_and_caps(a) == names_and_caps(b),
    ensures
        hashed_bytes(a) == hashed_bytes(b),
        dir_hash(a) == dir_hash(b),
    decreases a.len(),
{
    assert(a.len() == names_and_caps(a).len());
    assert(b.len() == names_and_caps(b).len());
    if a.len() > 0 {
        let last = a.len() - 1;
        assert(names_and_caps(a)[last] == names_and_caps(b)[last]);
        assert(names_and_caps(a.drop_last()) =~= names_and_caps(a).drop_last());
        assert(names_and_caps(b.drop_last()) =~= names_and_caps(b).drop_last());
        law_hash_ignores_metadata(a.drop_last(), b.drop_last());
    }
}

/// Two manifests into which the same children were pushed in the same
/// order have the same hash.
pub proof fn law_same_pushes_same_hash(a: Dir, b: Dir)
    requires
        a@ == b@,
    ensures
        dir_hash(a@) == dir_hash(b@),
{
}

/// The hash of a manifest without children is the hash of no bytes: what
/// the seed alone gives.
pub proof fn law_empty_hash()
    ensures
        dir_hash(Entries::empty()) == sea_hash(Seq::<u8>::empty()),
        manifest_text(Entries::empty()) == "{"@ + "}"@,
        serializable(Entries::empty()),
{
    assert(manifest_text(Entries::empty()) =~= "{"@ + "}"@);
}

} // verus!
