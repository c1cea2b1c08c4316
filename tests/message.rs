use box_kernel::error::{MessageError, ParseError, ProtocolError, Segment};
use box_kernel::json::Json;
use box_kernel::message::{reply_type_of, JupyterMessage};
use box_kernel::signing::Signer;
use box_kernel::wire::RawMessage;

const HEADER: &str = r#"{"msg_id": "abc", "msg_type": "execute_request", "username": "user", "session": "s1", "date": "2020-01-01T00:00:00Z", "version": "5.3"}"#;
const CONTENT: &str = r#"{ "code" : "1+1", "silent": false }"#;

fn raw(identities: &[&str], parts: &[&str]) -> RawMessage {
    RawMessage {
        identities: identities.iter().map(|t| t.as_bytes().to_vec()).collect(),
        parts: parts.iter().map(|t| t.as_bytes().to_vec()).collect(),
    }
}

fn request() -> JupyterMessage {
    JupyterMessage::from_raw_message(raw(&["frontend"], &[HEADER, "{}", "{}", CONTENT])).unwrap()
}

fn parse(text: &str) -> serde_json::Value {
    serde_json::from_str(text).unwrap()
}

#[test]
fn decode_then_encode_gives_back_the_frames() {
    let parts = [HEADER, " { } ", "{\"a\":\t[1, 2.50, \"\\u00e9\"]}", CONTENT];
    let m = JupyterMessage::from_raw_message(raw(&["x", "y"], &parts)).unwrap();
    let back = m.to_raw_message();
    assert_eq!(back.identities, raw(&["x", "y"], &[]).identities);
    assert_eq!(back.parts, raw(&[], &parts).parts);
}

#[test]
fn read_decodes_a_signed_multipart_message() {
    let signer = Signer::new("secret");
    let sent = request().to_multipart(&signer);
    let m = JupyterMessage::read(sent, &signer).unwrap();
    assert_eq!(m.header(), HEADER);
    assert_eq!(m.identities(), vec![b"frontend".to_vec()]);
}

#[test]
fn invalid_segments_are_parse_errors() {
    let r = JupyterMessage::from_raw_message(raw(&[], &[HEADER, "{}", "{}", "{not json"]));
    assert_eq!(r.err(), Some(MessageError::Parse(ParseError::InvalidJson(Segment::Content))));
    let r = JupyterMessage::from_raw_message(raw(&[], &[HEADER, "{}", "[", "{}"]));
    assert_eq!(r.err(), Some(MessageError::Parse(ParseError::InvalidJson(Segment::Metadata))));
    let bad_utf8 = RawMessage {
        identities: vec![],
        parts: vec![vec![0xff, 0xfe], b"{}".to_vec(), b"{}".to_vec(), b"{}".to_vec()],
    };
    let r = JupyterMessage::from_raw_message(bad_utf8);
    assert_eq!(r.err(), Some(MessageError::Parse(ParseError::InvalidJson(Segment::Header))));
    let r = JupyterMessage::from_raw_message(raw(&[], &[HEADER, "{}", "{}"]));
    assert_eq!(r.err(), Some(MessageError::Protocol(ProtocolError::InsufficientParts)));
}

#[test]
fn message_type_and_code() {
    let m = request();
    assert_eq!(m.message_type(), "execute_request");
    assert_eq!(m.code(), "1+1");
    let bare = JupyterMessage::from_raw_message(raw(&[], &["{}", "{}", "{}", "[]"])).unwrap();
    assert_eq!(bare.message_type(), "");
    assert_eq!(bare.code(), "");
}

#[test]
fn reply_links_to_the_request() {
    let m = request();
    let r = m.new_reply();
    let h = parse(&r.header());
    assert_eq!(h["msg_type"], "execute_reply");
    assert_eq!(h["username"], "kernel");
    assert_eq!(h["session"], "s1");
    assert_ne!(h["msg_id"], "abc");
    assert_eq!(r.parent_header(), HEADER);
    assert_eq!(r.identities(), m.identities());
    assert_eq!(r.metadata(), "{}");
    assert_eq!(r.content(), "{}");
}

#[test]
fn reply_with_given_id_and_date() {
    let r = request().new_reply_with("id-1", "2021-02-03");
    let h = parse(&r.header());
    assert_eq!(h["msg_id"], "id-1");
    assert_eq!(h["date"], "2021-02-03");
    assert_eq!(h["msg_type"], "execute_reply");
}

#[test]
fn child_has_no_identities() {
    let m = request();
    let c = m.new_message("status");
    assert!(c.identities().is_empty());
    assert_eq!(parse(&c.header())["msg_type"], "status");
    assert_eq!(c.parent_header(), m.header());
    let c2 = m.new_message("status");
    assert_ne!(parse(&c.header())["msg_id"], parse(&c2.header())["msg_id"]);
}

#[test]
fn child_of_non_object_header() {
    let m = JupyterMessage::from_raw_message(raw(&[], &["null", "{}", "{}", "{}"])).unwrap();
    let c = m.new_message_with("status", "i", "d");
    let h = parse(&c.header());
    assert_eq!(h["msg_type"], "status");
    assert_eq!(h["username"], "kernel");
    assert_eq!(c.parent_header(), "null");
}

#[test]
fn reply_types() {
    assert_eq!(reply_type_of("execute_request"), "execute_reply");
    assert_eq!(reply_type_of("kernel_info_request"), "kernel_info_reply");
    assert_eq!(reply_type_of("_request"), "_reply");
    assert_eq!(reply_type_of("status"), "status");
    assert_eq!(reply_type_of("a_request_b"), "a_request_b");
    assert_eq!(reply_type_of(""), "");
}

#[test]
fn with_content_dumps_compact_json() {
    let content = Json::Object(vec![
        ("a".to_string(), Json::Int(-12)),
        ("b".to_string(), Json::Array(vec![Json::Bool(true), Json::Null, Json::Str("q\"x".to_string())])),
        ("c".to_string(), Json::Object(vec![])),
    ]);
    assert_eq!(content.dump(), r#"{"a":-12,"b":[true,null,"q\"x"],"c":{}}"#);
    let m = request().new_message("x").with_content(&content);
    assert_eq!(m.content(), r#"{"a":-12,"b":[true,null,"q\"x"],"c":{}}"#);
}
