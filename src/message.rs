use vstd::prelude::*;
use vstd::string::*;
use vstd::utf8::*;

use crate::error::{MessageError, ParseError, ProtocolError, Segment};
use crate::json::{is_json_of, json_is_valid, json_member_str, json_member_str_of, json_text, json_with_member_str, json_with_member_str_of, Json};
use crate::signing::{lemma_bytes_deep_view, Signer};
use crate::wire::{copy_frames, read_verdict, RawMessage, CONTENT_PARTS};

verus! {

broadcast use lemma_bytes_deep_view;

/// What a message is: its routing identities and the JSON text of its four
/// segments.
pub struct MessageView {
    pub identities: Seq<Seq<u8>>,
    pub header: Seq<char>,
    pub parent_header: Seq<char>,
    pub metadata: Seq<char>,
    pub content: Seq<char>,
}

pub open spec fn key_msg_type() -> Seq<char> {
    seq!['m', 's', 'g', '_', 't', 'y', 'p', 'e']
}

pub open spec fn key_username() -> Seq<char> {
    seq!['u', 's', 'e', 'r', 'n', 'a', 'm', 'e']
}

pub open spec fn key_msg_id() -> Seq<char> {
    seq!['m', 's', 'g', '_', 'i', 'd']
}

pub open spec fn key_date() -> Seq<char> {
    seq!['d', 'a', 't', 'e']
}

pub open spec fn key_code() -> Seq<char> {
    seq!['c', 'o', 'd', 'e']
}

/// The user name that the kernel writes into the headers it makes.
pub open spec fn kernel_username() -> Seq<char> {
    seq!['k', 'e', 'r', 'n', 'e', 'l']
}

/// The text of an empty JSON object.
pub open spec fn empty_object_text() -> Seq<char> {
    seq!['{', '}']
}

pub open spec fn request_suffix() -> Seq<char> {
    seq!['_', 'r', 'e', 'q', 'u', 'e', 's', 't']
}

pub open spec fn reply_suffix() -> Seq<char> {
    seq!['_', 'r', 'e', 'p', 'l', 'y']
}

/// The string member `key` of the object `text`, or the empty text.
pub open spec fn member_or_empty(text: Seq<char>, key: Seq<char>) -> Seq<char> {
    match json_member_str_of(text, key) {
        Some(s) => s,
        None => Seq::empty(),
    }
}

/// The message type of a reply to a message of type `t`: a trailing
/// `_request` becomes `_reply`; any other type stays as it is.
pub open spec fn reply_type(t: Seq<char>) -> Seq<char> {
    if t.len() >= 8 && t.subrange(t.len() - 8, t.len() as int) == request_suffix() {
        t.subrange(0, t.len() - 8) + reply_suffix()
    } else {
        t
    }
}

/// A segment frame is accepted when it is UTF-8 text that is one JSON value.
pub open spec fn segment_ok(b: Seq<u8>) -> bool {
    valid_utf8(b) && is_json_of(decode_utf8(b))
}

/// What decoding identities and content parts gives.
pub open spec fn decode_verdict(identities: Seq<Seq<u8>>, parts: Seq<Seq<u8>>) -> Result<
    MessageView,
    MessageError,
> {
    if parts.len() != CONTENT_PARTS {
        Err(MessageError::Protocol(ProtocolError::InsufficientParts))
    } else if !segment_ok(parts[0]) {
        Err(MessageError::Parse(ParseError::InvalidJson(Segment::Header)))
    } else if !segment_ok(parts[1]) {
        Err(MessageError::Parse(ParseError::InvalidJson(Segment::ParentHeader)))
    } else if !segment_ok(parts[2]) {
        Err(MessageError::Parse(ParseError::InvalidJson(Segment::Metadata)))
    } else if !segment_ok(parts[3]) {
        Err(MessageError::Parse(ParseError::InvalidJson(Segment::Content)))
    } else {
        Ok(
            MessageView {
                identities: identities,
                header: decode_utf8(parts[0]),
                parent_header: decode_utf8(parts[1]),
                metadata: decode_utf8(parts[2]),
                content: decode_utf8(parts[3]),
            },
        )
    }
}

/// The four content parts of a message, in their fixed order.
pub open spec fn encoded_parts(m: MessageView) -> Seq<Seq<u8>> {
    seq![
        encode_utf8(m.header),
        encode_utf8(m.parent_header),
        encode_utf8(m.metadata),
        encode_utf8(m.content),
    ]
}

/// The header of a message that the kernel derives from one with header
/// `header`.
pub open spec fn derived_header(header: Seq<char>, msg_type: Seq<char>, msg_id: Seq<char>, date: Seq<
    char,
>) -> Seq<char> {
    json_with_member_str_of(
        json_with_member_str_of(
            json_with_member_str_of(
                json_with_member_str_of(header, key_msg_type(), msg_type),
                key_username(),
                kernel_username(),
            ),
            key_msg_id(),
            msg_id,
        ),
        key_date(),
        date,
    )
}

/// A child of `m` of type `msg_type`: no identities, the derived header,
/// `m`'s header as parent, empty metadata and content.
pub open spec fn child_view(m: MessageView, msg_type: Seq<char>, msg_id: Seq<char>, date: Seq<char>) -> MessageView {
    MessageView {
        identities: Seq::empty(),
        header: derived_header(m.header, msg_type, msg_id, date),
        parent_header: m.header,
        metadata: empty_object_text(),
        content: empty_object_text(),
    }
}

/// The reply to `m`: its child of the reply type, routed back to `m`'s
/// identities.
pub open spec fn reply_view(m: MessageView, msg_id: Seq<char>, date: Seq<char>) -> MessageView {
    MessageView {
        identities: m.identities,
        ..child_view(m, reply_type(member_or_empty(m.header, key_msg_type())), msg_id, date)
    }
}

/// `h` is the header `source` with the four members that the kernel
/// writes set to strings, and every other string member as it was.
pub open spec fn derived_from(h: Seq<char>, source: Seq<char>, msg_type: Seq<char>, msg_id: Seq<
    char,
>, date: Seq<char>) -> bool {
    &&& is_json_of(h)
    &&& json_member_str_of(h, key_msg_type()) == Some(msg_type)
    &&& json_member_str_of(h, key_username()) == Some(kernel_username())
    &&& json_member_str_of(h, key_msg_id()) == Some(msg_id)
    &&& json_member_str_of(h, key_date()) == Some(date)
    &&& forall|k: Seq<char>|
        k != key_msg_type() && k != key_username() && k != key_msg_id() && k != key_date()
            ==> #[trigger] json_member_str_of(h, k) == json_member_str_of(source, k)
}

/// Decoding a frame-set and encoding the message again gives back its
/// identities and, byte for byte, its four content parts.
pub proof fn lemma_decode_encode_round_trip(identities: Seq<Seq<u8>>, parts: Seq<Seq<u8>>)
    requires
        decode_verdict(identities, parts) is Ok,
    ensures
        ({
            let m = decode_verdict(identities, parts)->Ok_0;
            &&& m.identities == identities
            &&& encoded_parts(m) == parts
        }),
{
    decode_utf8_encode_utf8(parts[0]);
    decode_utf8_encode_utf8(parts[1]);
    decode_utf8_encode_utf8(parts[2]);
    decode_utf8_encode_utf8(parts[3]);
    assert(encoded_parts(decode_verdict(identities, parts)->Ok_0) =~= parts);
}

/// The reply type of a type that ends in `_request` ends in `_reply`
/// instead; `execute_request` gets `execute_reply`.
pub proof fn lemma_reply_type_of_request(prefix: Seq<char>)
    ensures
        reply_type(prefix + request_suffix()) == prefix + reply_suffix(),
        reply_type(seq!['e', 'x', 'e', 'c', 'u', 't', 'e'] + request_suffix()) == seq![
            'e',
            'x',
            'e',
            'c',
            'u',
            't',
            'e',
        ] + reply_suffix(),
{
    let t = prefix + request_suffix();
    assert(t.subrange(t.len() - 8, t.len() as int) =~= request_suffix());
    assert(t.subrange(0, t.len() - 8) =~= prefix);
    let e = seq!['e', 'x', 'e', 'c', 'u', 't', 'e'];
    let u = e + request_suffix();
    assert(u.subrange(u.len() - 8, u.len() as int) =~= request_suffix());
    assert(u.subrange(0, u.len() - 8) =~= e);
}

proof fn lemma_keys_distinct()
    ensures
        key_msg_type() != key_username(),
        key_msg_type() != key_msg_id(),
        key_msg_type() != key_date(),
        key_username() != key_msg_id(),
        key_username() != key_date(),
        key_msg_id() != key_date(),
{
    assert(key_msg_type()[0] != key_username()[0]);
    assert(key_msg_type().len() != key_msg_id().len());
    assert(key_msg_type().len() != key_date().len());
    assert(key_username().len() != key_msg_id().len());
    assert(key_username().len() != key_date().len());
    assert(key_msg_id().len() != key_date().len());
}

/// Relies on std::str::from_utf8: it accepts exactly the UTF-8 byte strings,
/// and the text it gives is what those bytes encode.
#[verifier::external_body]
fn utf8_text(b: &[u8]) -> (r: Option<String>)
    ensures
        match r {
            Some(s) => valid_utf8(b@) && s@ == decode_utf8(b@),
            None => !valid_utf8(b@),
        },
{
    std::str::from_utf8(b).ok().map(|s| s.to_string())
}

/// Relies on uuid's `Uuid::new_v4` and its `to_string`: a fresh random
/// identifier. Nothing is known of its value.
#[verifier::external_body]
pub(crate) fn fresh_message_id() -> (r: String) {
    uuid::Uuid::new_v4().to_string()
}

/// Relies on chrono's `Utc::now` and `to_rfc3339`: the current time. Nothing
/// is known of its value.
#[verifier::external_body]
pub(crate) fn timestamp_now() -> (r: String) {
    chrono::Utc::now().to_rfc3339()
}

/// The text of one segment frame, if it is UTF-8 JSON text.
fn decode_segment(b: &[u8]) -> (r: Option<String>)
    ensures
        match r {
            Some(s) => segment_ok(b@) && s@ == decode_utf8(b@),
            None => !segment_ok(b@),
        },
{
    match utf8_text(b) {
        None => None,
        Some(s) => if json_is_valid(s.as_str()) {
            Some(s)
        } else {
            None
        },
    }
}

/// The reply type of `t`.
pub fn reply_type_of(t: &str) -> (r: String)
    ensures
        r@ == reply_type(t@),
{
    proof {
        reveal_strlit("_request");
        reveal_strlit("_reply");
    }
    let n = t.unicode_len();
    let suffix = "_request";
    if n < 8 {
        return String::from_str(t);
    }
    let mut k: usize = 0;
    while k < 8
        invariant
            n == t@.len(),
            n >= 8,
            k <= 8,
            suffix@ == request_suffix(),
            forall|j: int| 0 <= j < k ==> t@[n - 8 + j] == request_suffix()[j],
        decreases 8 - k,
    {
        if t.get_char(n - 8 + k) != suffix.get_char(k) {
            proof {
                assert(t@.subrange(n - 8, n as int)[k as int] != request_suffix()[k as int]);
            }
            return String::from_str(t);
        }
        k = k + 1;
    }
    proof {
        assert(t@.subrange(n - 8, n as int) =~= request_suffix());
    }
    let prefix = String::from_str(t.substring_char(0, n - 8));
    prefix.concat("_reply")
}

/// A message of the notebook protocol.
#[derive(Clone)]
pub struct JupyterMessage {
    identities: Vec<Vec<u8>>,
    header: String,
    parent_header: String,
    metadata: String,
    content: String,
}

impl View for JupyterMessage {
    type V = MessageView;

    closed spec fn view(&self) -> MessageView {
        MessageView {
            identities: self.identities.deep_view(),
            header: self.header@,
            parent_header: self.parent_header@,
            metadata: self.metadata@,
            content: self.content@,
        }
    }
}

impl JupyterMessage {
    /// Reads one message from the frames of a received multipart message.
    pub fn read(multipart: Vec<Vec<u8>>, signer: &Signer) -> (r: Result<JupyterMessage, MessageError>)
        ensures
            match read_verdict(signer.key_view(), multipart.deep_view()) {
                Err(e) => r == Err::<JupyterMessage, MessageError>(e),
                Ok((ids, parts)) => match (r, decode_verdict(ids, parts)) {
                    (Ok(m), Ok(v)) => m@ == v,
                    (Err(e), Err(f)) => e == f,
                    _ => false,
                },
            },
    {
        match RawMessage::read(multipart, signer) {
            Err(e) => Err(e),
            Ok(raw) => JupyterMessage::from_raw_message(raw),
        }
    }

    /// Decodes the four content parts of a frame-set.
    pub fn from_raw_message(raw: RawMessage) -> (r: Result<JupyterMessage, MessageError>)
        ensures
            match (r, decode_verdict(raw.identities.deep_view(), raw.parts.deep_view())) {
                (Ok(m), Ok(v)) => m@ == v,
                (Err(e), Err(f)) => e == f,
                _ => false,
            },
    {
        if raw.parts.len() != CONTENT_PARTS {
            return Err(MessageError::Protocol(ProtocolError::InsufficientParts));
        }
        let header = match decode_segment(raw.parts[0].as_slice()) {
            Some(s) => s,
            None => {
                return Err(MessageError::Parse(ParseError::InvalidJson(Segment::Header)));
            },
        };
        let parent_header = match decode_segment(raw.parts[1].as_slice()) {
            Some(s) => s,
            None => {
                return Err(MessageError::Parse(ParseError::InvalidJson(Segment::ParentHeader)));
            },
        };
        let metadata = match decode_segment(raw.parts[2].as_slice()) {
            Some(s) => s,
            None => {
                return Err(MessageError::Parse(ParseError::InvalidJson(Segment::Metadata)));
            },
        };
        let content = match decode_segment(raw.parts[3].as_slice()) {
            Some(s) => s,
            None => {
                return Err(MessageError::Parse(ParseError::InvalidJson(Segment::Content)));
            },
        };
        Ok(JupyterMessage { identities: raw.identities, header, parent_header, metadata, content })
    }

    /// The frame-set of this message: its identities and its four segments
    /// as UTF-8 bytes.
    pub fn to_raw_message(&self) -> (r: RawMessage)
        ensures
            r.identities.deep_view() == self@.identities,
            r.parts.deep_view() == encoded_parts(self@),
    {
        let mut parts: Vec<Vec<u8>> = Vec::new();
        parts.push(vstd::slice::slice_to_vec(self.header.as_str().as_bytes()));
        parts.push(vstd::slice::slice_to_vec(self.parent_header.as_str().as_bytes()));
        parts.push(vstd::slice::slice_to_vec(self.metadata.as_str().as_bytes()));
        parts.push(vstd::slice::slice_to_vec(self.content.as_str().as_bytes()));
        proof {
            assert(parts.deep_view() =~= encoded_parts(self@));
        }
        RawMessage { identities: copy_frames(&self.identities), parts }
    }

    /// The frames to send for this message, signed by `signer`.
    pub fn to_multipart(&self, signer: &Signer) -> (r: Vec<Vec<u8>>)
        ensures
            r.deep_view() == crate::wire::frames_of(
                self@.identities,
                encode_utf8(crate::signing::digest_text(signer.key_view(), encoded_parts(self@))),
                encoded_parts(self@),
            ),
    {
        self.to_raw_message().to_multipart(signer)
    }

    /// The header's `msg_type`, or the empty text.
    pub fn message_type(&self) -> (r: String)
        ensures
            r@ == member_or_empty(self@.header, key_msg_type()),
    {
        proof {
            reveal_strlit("msg_type");
            assert("msg_type"@ =~= key_msg_type());
        }
        match json_member_str(self.header.as_str(), "msg_type") {
            Some(s) => s,
            None => String::new(),
        }
    }

    /// The content's `code`, or the empty text.
    pub fn code(&self) -> (r: String)
        ensures
            r@ == member_or_empty(self@.content, key_code()),
    {
        proof {
            reveal_strlit("code");
            assert("code"@ =~= key_code());
        }
        match json_member_str(self.content.as_str(), "code") {
            Some(s) => s,
            None => String::new(),
        }
    }

    /// The child of this message of type `msg_type`, with the given id and
    /// date in its header.
    pub fn new_message_with(&self, msg_type: &str, msg_id: &str, date: &str) -> (r: JupyterMessage)
        ensures
            r@ == child_view(self@, msg_type@, msg_id@, date@),
            derived_from(r@.header, self@.header, msg_type@, msg_id@, date@),
    {
        proof {
            reveal_strlit("msg_type");
            reveal_strlit("username");
            reveal_strlit("kernel");
            reveal_strlit("msg_id");
            reveal_strlit("date");
            reveal_strlit("{}");
            assert("msg_type"@ =~= key_msg_type());
            assert("username"@ =~= key_username());
            assert("kernel"@ =~= kernel_username());
            assert("msg_id"@ =~= key_msg_id());
            assert("date"@ =~= key_date());
            assert("{}"@ =~= empty_object_text());
            lemma_keys_distinct();
        }
        let h = json_with_member_str(self.header.as_str(), "msg_type", msg_type);
        let h = json_with_member_str(h.as_str(), "username", "kernel");
        let h = json_with_member_str(h.as_str(), "msg_id", msg_id);
        let h = json_with_member_str(h.as_str(), "date", date);
        let r = JupyterMessage {
            identities: Vec::new(),
            header: h,
            parent_header: String::from_str(self.header.as_str()),
            metadata: String::from_str("{}"),
            content: String::from_str("{}"),
        };
        proof {
            assert(r@.identities =~= Seq::<Seq<u8>>::empty());
            assert(r@ == child_view(self@, msg_type@, msg_id@, date@));
        }
        r
    }

    /// The child of this message of type `msg_type`, with a fresh id and the
    /// current time in its header.
    pub fn new_message(&self, msg_type: &str) -> (r: JupyterMessage)
        ensures
            exists|id: Seq<char>, date: Seq<char>|
                r@ == child_view(self@, msg_type@, id, date) && derived_from(
                    r@.header,
                    self@.header,
                    msg_type@,
                    id,
                    date,
                ),
    {
        let id = fresh_message_id();
        let date = timestamp_now();
        self.new_message_with(msg_type, id.as_str(), date.as_str())
    }

    /// The reply to this message, with the given id and date in its header.
    pub fn new_reply_with(&self, msg_id: &str, date: &str) -> (r: JupyterMessage)
        ensures
            r@ == reply_view(self@, msg_id@, date@),
            derived_from(
                r@.header,
                self@.header,
                reply_type(member_or_empty(self@.header, key_msg_type())),
                msg_id@,
                date@,
            ),
    {
        let t = reply_type_of(self.message_type().as_str());
        let mut r = self.new_message_with(t.as_str(), msg_id, date);
        r.identities = copy_frames(&self.identities);
        r
    }

    /// The reply to this message, with a fresh id and the current time in its
    /// header.
    pub fn new_reply(&self) -> (r: JupyterMessage)
        ensures
            exists|id: Seq<char>, date: Seq<char>|
                r@ == reply_view(self@, id, date) && derived_from(
                    r@.header,
                    self@.header,
                    reply_type(member_or_empty(self@.header, key_msg_type())),
                    id,
                    date,
                ),
    {
        let id = fresh_message_id();
        let date = timestamp_now();
        self.new_reply_with(id.as_str(), date.as_str())
    }

    /// This message with `content` as its content.
    pub fn with_content(self, content: &Json) -> (r: JupyterMessage)
        ensures
            r@ == (MessageView { content: json_text(*content), ..self@ }),
    {
        let mut m = self;
        m.content = content.dump();
        m
    }

    /// The routing identities.
    pub fn identities(&self) -> (r: Vec<Vec<u8>>)
        ensures
            r.deep_view() == self@.identities,
    {
        copy_frames(&self.identities)
    }

    /// The header's JSON text.
    pub fn header(&self) -> (r: String)
        ensures
            r@ == self@.header,
    {
        String::from_str(self.header.as_str())
    }

    /// The parent header's JSON text.
    pub fn parent_header(&self) -> (r: String)
        ensures
            r@ == self@.parent_header,
    {
        String::from_str(self.parent_header.as_str())
    }

    /// The metadata's JSON text.
    pub fn metadata(&self) -> (r: String)
        ensures
            r@ == self@.metadata,
    {
        String::from_str(self.metadata.as_str())
    }

    /// The content's JSON text.
    pub fn content(&self) -> (r: String)
        ensures
            r@ == self@.content,
    {
        String::from_str(self.content.as_str())
    }
}

} // verus!
