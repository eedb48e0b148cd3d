use std::hash::Hasher;
use tahoe_backup::client::{
    feed, read_attached, read_cap, Body, Dir, DirNode, DirNodeInner, FeedAction, FeedEvent,
    Metadata, Method, NodeType, Request, Response, Tahoe, CHUNK_SIZE,
};
use tahoe_backup::errors::{Error, ErrorKind};
use tahoe_backup::meta::{FileInfo, FileKind};

fn info(created: Option<i64>, modified: Option<i64>) -> Option<FileInfo> {
    Some(FileInfo { kind: FileKind::File, len: 5, created, modified })
}

fn node(cap: &str, created: Option<i64>, modified: Option<i64>) -> DirNode {
    DirNode::new(String::from(cap), info(created, modified))
}

fn dir_of(children: Vec<(&str, DirNode)>) -> Dir {
    let mut dir = Dir::new();
    for (name, n) in children {
        dir.push((String::from(name), n));
    }
    dir
}

#[test]
fn node_kind_is_read_from_the_capability() {
    assert_eq!(node("URI:DIR2:abc", None, None).0, NodeType::Dir);
    assert_eq!(node("URI:DIR", None, None).0, NodeType::Dir);
    assert_eq!(node("URI:DIR-RO:abc", None, None).0, NodeType::Dir);
    assert_eq!(node("URI:CHK:abc", None, None).0, NodeType::File);
    assert_eq!(node("URI:DI", None, None).0, NodeType::File);
    assert_eq!(node("", None, None).0, NodeType::File);
    assert_eq!(node("xURI:DIR", None, None).0, NodeType::File);
}

#[test]
fn node_carries_the_times_that_are_known() {
    assert_eq!(
        node("URI:CHK:xyz", Some(100), Some(200)),
        DirNode(
            NodeType::File,
            DirNodeInner {
                ro_uri: String::from("URI:CHK:xyz"),
                metadata: Metadata { ctime: Some(100), mtime: Some(200) },
            }
        )
    );
    assert_eq!(node("c", None, Some(200)).1.metadata, Metadata { ctime: None, mtime: Some(200) });
    assert_eq!(node("c", Some(-5), Some(200)).1.metadata, Metadata { ctime: None, mtime: Some(200) });
    assert_eq!(node("c", Some(0), None).1.metadata, Metadata { ctime: Some(0), mtime: None });
}

#[test]
fn node_without_metadata_carries_no_times() {
    let n = DirNode::new(String::from("URI:CHK:xyz"), None);
    assert_eq!(n.1.metadata, Metadata { ctime: None, mtime: None });
    assert_eq!(n.uri(), "URI:CHK:xyz");
}

#[test]
fn node_clone_is_equal() {
    let n = node("URI:CHK:xyz", Some(100), Some(200));
    assert_eq!(n.clone(), n);
}

#[test]
fn empty_dir_hashes_to_the_hash_of_nothing() {
    let dir = Dir::new();
    assert_eq!(dir.len(), 0);
    assert_eq!(dir.hash(), seahash::hash(b""));
    assert_eq!(dir.hash(), seahash::SeaHasher::new().finish());
}

#[test]
fn dir_hash_is_the_seahash_of_names_and_capabilities() {
    let dir = dir_of(vec![("a.txt", node("URI:CHK:xyz", Some(100), Some(200)))]);
    assert_eq!(dir.hash(), seahash::hash(b"a.txtURI:CHK:xyz"));
    assert_ne!(dir.hash(), Dir::new().hash());
}

#[test]
fn dir_hash_covers_all_children_in_order() {
    let dir = dir_of(vec![
        ("a.txt", node("URI:CHK:xyz", None, None)),
        ("sub", node("URI:DIR2:abc", None, None)),
        ("a rather long file name, longer than one block.bin", node("URI:CHK:0123456789abcdef0123456789abcdef", None, None)),
    ]);
    let mut bytes: Vec<u8> = Vec::new();
    bytes.extend_from_slice(b"a.txtURI:CHK:xyz");
    bytes.extend_from_slice(b"subURI:DIR2:abc");
    bytes.extend_from_slice(b"a rather long file name, longer than one block.bin");
    bytes.extend_from_slice(b"URI:CHK:0123456789abcdef0123456789abcdef");
    assert_eq!(dir.hash(), seahash::hash(&bytes));
}

#[test]
fn dir_hash_uses_the_utf8_bytes() {
    let dir = dir_of(vec![("größe.txt", node("URI:CHK:ü", None, None))]);
    assert_eq!(dir.hash(), seahash::hash("größe.txtURI:CHK:ü".as_bytes()));
}

#[test]
fn dir_hash_ignores_metadata() {
    let a = dir_of(vec![("a.txt", node("URI:CHK:xyz", Some(100), Some(200))), ("b", node("URI:CHK:b", None, None))]);
    let b = dir_of(vec![("a.txt", node("URI:CHK:xyz", Some(999), None)), ("b", node("URI:CHK:b", Some(1), Some(2)))]);
    assert_eq!(a.hash(), b.hash());
}

#[test]
fn same_pushes_give_the_same_hash() {
    let make = || dir_of(vec![("a.txt", node("URI:CHK:xyz", Some(100), Some(200))), ("b", node("URI:CHK:b", None, None))]);
    assert_eq!(make().hash(), make().hash());
    assert_eq!(make().hash().to_le_bytes(), make().hash().to_le_bytes());
}

#[test]
fn dir_hash_depends_on_the_order() {
    let a = dir_of(vec![("a", node("URI:CHK:1", None, None)), ("b", node("URI:CHK:2", None, None))]);
    let b = dir_of(vec![("b", node("URI:CHK:2", None, None)), ("a", node("URI:CHK:1", None, None))]);
    assert_ne!(a.hash(), b.hash());
}

#[test]
fn hash_does_not_change_the_manifest() {
    let dir = dir_of(vec![("a", node("URI:CHK:1", None, None))]);
    let first = dir.hash();
    assert_eq!(dir.hash(), first);
    assert_eq!(dir.len(), 1);
}

#[test]
fn dir_keeps_children_in_push_order() {
    let dir = dir_of(vec![("z", node("URI:CHK:1", None, None)), ("a", node("URI:DIR2:2", None, None))]);
    assert_eq!(dir.len(), 2);
    assert_eq!(dir.name(0), "z");
    assert_eq!(dir.name(1), "a");
    assert_eq!(dir.node(0).uri(), "URI:CHK:1");
    assert_eq!(dir.node(1).0, NodeType::Dir);
}

#[test]
fn from_iter_is_pushing_in_order() {
    let items = vec![
        (String::from("z"), node("URI:CHK:1", Some(1), None)),
        (String::from("a"), node("URI:DIR2:2", None, Some(2))),
    ];
    let pushed = dir_of(vec![("z", node("URI:CHK:1", Some(1), None)), ("a", node("URI:DIR2:2", None, Some(2)))]);
    let collected = Dir::from_iter(items);
    assert_eq!(collected.len(), 2);
    assert_eq!(collected.name(0), "z");
    assert_eq!(collected.name(1), "a");
    assert_eq!(collected.hash(), pushed.hash());
    assert_eq!(collected.serialize(), pushed.serialize());
}

#[test]
fn empty_dir_serializes_to_an_empty_object() {
    assert_eq!(Dir::new().serialize(), Ok(String::from("{}")));
    assert_eq!(Dir::from_iter(vec![]).serialize(), Ok(String::from("{}")));
}

#[test]
fn single_file_manifest_text() {
    let dir = dir_of(vec![("a.txt", node("URI:CHK:xyz", Some(100), Some(200)))]);
    assert_eq!(
        dir.serialize().unwrap(),
        r#"{"a.txt":["filenode",{"ro_uri":"URI:CHK:xyz","metadata":{"ctime":100,"mtime":200}}]}"#
    );
}

#[test]
fn manifest_text_of_every_metadata_shape() {
    let dir = dir_of(vec![
        ("both", node("URI:CHK:1", Some(1), Some(2))),
        ("ctime", node("URI:CHK:2", Some(3), None)),
        ("mtime", node("URI:CHK:3", None, Some(4))),
        ("none", DirNode::new(String::from("URI:DIR2:4"), None)),
    ]);
    assert_eq!(
        dir.serialize().unwrap(),
        concat_all(&[
            r#"{"both":["filenode",{"ro_uri":"URI:CHK:1","metadata":{"ctime":1,"mtime":2}}],"#,
            r#""ctime":["filenode",{"ro_uri":"URI:CHK:2","metadata":{"ctime":3}}],"#,
            r#""mtime":["filenode",{"ro_uri":"URI:CHK:3","metadata":{"mtime":4}}],"#,
            r#""none":["dirnode",{"ro_uri":"URI:DIR2:4","metadata":{}}]}"#,
        ])
    );
}

fn concat_all(parts: &[&str]) -> String {
    let mut s = String::new();
    for p in parts {
        s.push_str(p);
    }
    s
}

#[test]
fn manifest_text_escapes_names() {
    let dir = dir_of(vec![("we\"ird\\na\nme\u{1}", node("URI:CHK:xyz", None, None))]);
    assert_eq!(
        dir.serialize().unwrap(),
        r#"{"we\"ird\\na\nme\u0001":["filenode",{"ro_uri":"URI:CHK:xyz","metadata":{}}]}"#
    );
}

#[test]
fn manifest_text_keeps_insertion_order() {
    let dir = dir_of(vec![
        ("zebra", node("URI:CHK:1", None, None)),
        ("apple", node("URI:CHK:2", None, None)),
        ("mango", node("URI:CHK:3", None, None)),
    ]);
    let text = dir.serialize().unwrap();
    let z = text.find("\"zebra\"").unwrap();
    let a = text.find("\"apple\"").unwrap();
    let m = text.find("\"mango\"").unwrap();
    assert!(z < a && a < m);
}

#[test]
fn manifest_text_parses_back_to_the_same_children() {
    let children = vec![
        ("zebra \"quoted\"", "URI:CHK:1", Some(100), Some(200)),
        ("apple/\\", "URI:DIR2:2", None, Some(7)),
        ("größe\t\u{7f}", "URI:CHK:3", Some(18446744073), None),
        ("", "URI:CHK:4", None, None),
    ];
    let mut dir = Dir::new();
    for (name, cap, c, m) in children.iter() {
        dir.push((String::from(*name), node(cap, *c, *m)));
    }
    let text = dir.serialize().unwrap();
    let parsed: serde_json::Value = serde_json::from_str(&text).unwrap();
    let object = parsed.as_object().unwrap();
    assert_eq!(object.len(), children.len());
    let mut at = 0;
    for (i, (name, cap, c, m)) in children.iter().enumerate() {
        let value = object.get(*name).unwrap();
        let pair = value.as_array().unwrap();
        assert_eq!(pair.len(), 2);
        let tag = if cap.starts_with("URI:DIR") { "dirnode" } else { "filenode" };
        assert_eq!(pair[0].as_str(), Some(tag));
        let inner = pair[1].as_object().unwrap();
        assert_eq!(inner.len(), 2);
        assert_eq!(inner.get("ro_uri").unwrap().as_str(), Some(*cap));
        let metadata = inner.get("metadata").unwrap().as_object().unwrap();
        assert_eq!(metadata.get("ctime").and_then(|v| v.as_u64()), c.map(|s| s as u64));
        assert_eq!(metadata.get("mtime").and_then(|v| v.as_u64()), m.map(|s| s as u64));
        assert_eq!(metadata.len(), c.iter().count() + m.iter().count());
        assert_eq!(dir.name(i), *name);
        let key = serde_json::to_string(name).unwrap();
        let found = text[at..].find(&key).unwrap() + at;
        assert!(found >= at);
        at = found + key.len();
    }
}

#[test]
fn manifest_text_is_what_serde_json_writes_for_the_same_value() {
    let dir = dir_of(vec![("a \"b\"", node("URI:CHK:x\\y", Some(100), Some(200)))]);
    let mut metadata = serde_json::Map::new();
    metadata.insert(String::from("ctime"), serde_json::Value::from(100u64));
    metadata.insert(String::from("mtime"), serde_json::Value::from(200u64));
    let mut inner = serde_json::Map::new();
    inner.insert(String::from("ro_uri"), serde_json::Value::from("URI:CHK:x\\y"));
    inner.insert(String::from("metadata"), serde_json::Value::Object(metadata));
    let pair = serde_json::Value::Array(vec![serde_json::Value::from("filenode"), serde_json::Value::Object(inner)]);
    let mut object = serde_json::Map::new();
    object.insert(String::from("a \"b\""), pair);
    let expected: serde_json::Value = serde_json::Value::Object(object);
    let written: serde_json::Value = serde_json::from_str(&dir.serialize().unwrap()).unwrap();
    assert_eq!(written, expected);
}

fn client() -> Tahoe {
    Tahoe::new(4, None).unwrap()
}

#[test]
fn client_defaults_to_the_local_store() {
    let c = client();
    assert_eq!(c.threads(), 4);
    assert_eq!(c.upload_file(), Request { method: Method::Put, uri: String::from("http://127.0.0.1:3456/uri"), body: Body::File });
}

#[test]
fn client_for_another_store() {
    let c = Tahoe::new(1, Some("example.org:8080")).unwrap();
    assert_eq!(c.threads(), 1);
    assert_eq!(c.upload_file().uri, "http://example.org:8080/uri");
}

#[test]
fn client_refuses_an_address_that_makes_no_uri() {
    match Tahoe::new(4, Some("bad host")) {
        Ok(_) => panic!("an address with a space was accepted"),
        Err(e) => assert_eq!(e, Error::msg("failed to parse base")),
    }
    assert!(Tahoe::new(4, Some("")).is_err());
}

#[test]
fn upload_file_request_puts_the_file_at_the_base() {
    let r = client().upload_file();
    assert_eq!(r.method, Method::Put);
    assert_eq!(r.uri, "http://127.0.0.1:3456/uri");
    assert_eq!(r.body, Body::File);
}

#[test]
fn upload_dir_request_posts_the_manifest() {
    let dir = dir_of(vec![("a.txt", node("URI:CHK:xyz", Some(100), Some(200)))]);
    let r = client().upload_dir(&dir).unwrap();
    assert_eq!(r.method, Method::Post);
    assert_eq!(r.uri, "http://127.0.0.1:3456/uri?t=mkdir-immutable");
    assert_eq!(
        r.body,
        Body::Bytes(
            br#"{"a.txt":["filenode",{"ro_uri":"URI:CHK:xyz","metadata":{"ctime":100,"mtime":200}}]}"#.to_vec()
        )
    );
}

#[test]
fn upload_dir_request_for_an_empty_directory() {
    let r = client().upload_dir(&Dir::new()).unwrap();
    assert_eq!(r.body, Body::Bytes(b"{}".to_vec()));
}

#[test]
fn attach_request_puts_the_capability_under_the_name() {
    let r = client().attach("URI:DIR2:target", "Latest", "URI:DIR2-CHK:root").unwrap();
    assert_eq!(
        r,
        Request {
            method: Method::Put,
            uri: String::from("http://127.0.0.1:3456/uri/URI:DIR2:target/Latest?t=uri"),
            body: Body::Bytes(b"URI:DIR2-CHK:root".to_vec()),
        }
    );
}

#[test]
fn attach_request_takes_names_as_they_are() {
    let r = client().attach("URI:DIR2:t", "Archives/2026-01-02T03:04:05+00:00", "cap").unwrap();
    assert_eq!(r.uri, "http://127.0.0.1:3456/uri/URI:DIR2:t/Archives/2026-01-02T03:04:05+00:00?t=uri");
}

#[test]
fn attach_fails_where_the_names_make_no_uri() {
    assert_eq!(client().attach("URI:DIR2:t", "with space", "cap"), Err(Error::msg("failed to form url")));
}

#[test]
fn request_uris_parse() {
    let c = client();
    assert!(c.upload_file().uri.parse::<hyper::Uri>().is_ok());
    assert!(c.upload_dir(&Dir::new()).unwrap().uri.parse::<hyper::Uri>().is_ok());
    assert!(c.attach("URI:DIR2:t", "Latest", "cap").unwrap().uri.parse::<hyper::Uri>().is_ok());
}

fn answer(status: u16, body: &[u8]) -> Result<Response, Error> {
    Ok(Response { status, body: body.to_vec() })
}

#[test]
fn capability_is_the_body_of_a_successful_answer() {
    assert_eq!(read_cap(answer(200, b"URI:CHK:xyz")), Ok(String::from("URI:CHK:xyz")));
    assert_eq!(read_cap(answer(201, b"URI:DIR2:abc")), Ok(String::from("URI:DIR2:abc")));
    assert_eq!(read_cap(answer(299, "grüße".as_bytes())), Ok(String::from("grüße")));
    assert_eq!(read_cap(answer(200, b"")), Ok(String::new()));
}

#[test]
fn status_outside_the_successes_is_a_store_status() {
    for status in [500u16, 404, 300, 199, 0, 100, 65535] {
        assert_eq!(read_cap(answer(status, b"URI:CHK:xyz")), Err(Error::new(ErrorKind::StoreStatus(status))));
    }
}

#[test]
fn body_that_is_not_utf8_is_a_decode_failure() {
    assert_eq!(read_cap(answer(200, &[0xff, 0xfe])), Err(Error::new(ErrorKind::Decode)));
    assert_eq!(read_cap(answer(200, &[0xc3])), Err(Error::new(ErrorKind::Decode)));
    assert_eq!(read_cap(answer(200, &[0xed, 0xa0, 0x80])), Err(Error::new(ErrorKind::Decode)));
}

#[test]
fn status_is_read_before_the_body() {
    assert_eq!(read_cap(answer(500, &[0xff])), Err(Error::new(ErrorKind::StoreStatus(500))));
}

#[test]
fn answer_that_did_not_arrive_is_an_upload_failure() {
    let cause = Error::new(ErrorKind::Io(String::from("connection refused")));
    assert_eq!(
        read_cap(Err(cause)),
        Err(Error { kind: ErrorKind::Upload, causes: vec![ErrorKind::Io(String::from("connection refused"))] })
    );
}

#[test]
fn attach_answer_needs_a_success() {
    assert_eq!(read_attached(answer(200, b"anything")), Ok(()));
    assert_eq!(read_attached(answer(204, b"")), Ok(()));
    assert_eq!(read_attached(answer(500, b"")), Err(Error::new(ErrorKind::StoreStatus(500))));
    assert_eq!(read_attached(answer(300, b"")), Err(Error::new(ErrorKind::StoreStatus(300))));
    let cause = Error::new(ErrorKind::Io(String::from("reset")));
    assert_eq!(
        read_attached(Err(cause)),
        Err(Error { kind: ErrorKind::Upload, causes: vec![ErrorKind::Io(String::from("reset"))] })
    );
}

#[test]
fn chunk_size_is_one_mebibyte() {
    assert_eq!(CHUNK_SIZE, 1048576);
}

#[test]
fn feed_reads_then_sends_then_reads() {
    assert_eq!(feed(FeedEvent::Started), FeedAction::Read(1048576));
    assert_eq!(feed(FeedEvent::Read(1048576)), FeedAction::Send(1048576));
    assert_eq!(feed(FeedEvent::Sent), FeedAction::Read(1048576));
    assert_eq!(feed(FeedEvent::Read(17)), FeedAction::Send(17));
    assert_eq!(feed(FeedEvent::Read(0)), FeedAction::Close);
}

#[test]
fn feed_gives_up_on_the_first_failure() {
    assert_eq!(feed(FeedEvent::ReadFailed), FeedAction::Abort);
    assert_eq!(feed(FeedEvent::SendFailed), FeedAction::Abort);
}

#[test]
fn feed_never_sends_more_than_a_chunk() {
    assert_eq!(feed(FeedEvent::Read(1048577)), FeedAction::Send(1048576));
    assert_eq!(feed(FeedEvent::Read(usize::MAX)), FeedAction::Send(1048576));
}

#[test]
fn ten_mebibytes_go_out_in_ten_chunks() {
    let mut left: usize = 10 * 1024 * 1024;
    let mut sent = 0;
    let mut chunks = 0;
    let mut action = feed(FeedEvent::Started);
    loop {
        match action {
            FeedAction::Read(most) => {
                assert!(most <= CHUNK_SIZE);
                let n = if left < most { left } else { most };
                left -= n;
                action = feed(FeedEvent::Read(n));
            }
            FeedAction::Send(n) => {
                assert!(n <= CHUNK_SIZE);
                sent += n;
                chunks += 1;
                action = feed(FeedEvent::Sent);
            }
            FeedAction::Close => break,
            FeedAction::Abort => panic!("gave up without a failure"),
        }
    }
    assert_eq!(sent, 10 * 1024 * 1024);
    assert_eq!(chunks, 10);
}
