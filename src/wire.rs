use vstd::prelude::*;
use vstd::utf8::*;

use crate::error::{MessageError, ProtocolError};
use crate::signing::{signature_verdict, digest_text, lemma_bytes_deep_view, lemma_digest_verifies, Signer};

verus! {

broadcast use crate::signing::lemma_bytes_deep_view;

/// The frame `<IDS|MSG>` that separates routing identities from the signed
/// region.
pub open spec fn delimiter_bytes() -> Seq<u8> {
    seq![60u8, 73u8, 68u8, 83u8, 124u8, 77u8, 83u8, 71u8, 62u8]
}

/// The number of content parts of a message: header, parent header,
/// metadata and content.
pub const CONTENT_PARTS: usize = 4;

/// The index of the first delimiter frame, or the number of frames if there
/// is none.
pub open spec fn first_delimiter(frames: Seq<Seq<u8>>) -> int
    decreases frames.len(),
{
    if frames.len() == 0 {
        0
    } else if frames[0] == delimiter_bytes() {
        0
    } else {
        1 + first_delimiter(frames.drop_first())
    }
}

/// What reading a multipart message gives: the identities and the content
/// parts, or the first thing wrong with it.
pub open spec fn read_verdict(key: Option<Seq<u8>>, frames: Seq<Seq<u8>>) -> Result<
    (Seq<Seq<u8>>, Seq<Seq<u8>>),
    MessageError,
> {
    let d = first_delimiter(frames);
    if d == frames.len() {
        Err(MessageError::Protocol(ProtocolError::MissingDelimiter))
    } else if frames.len() - d != 2 + CONTENT_PARTS {
        Err(MessageError::Protocol(ProtocolError::InsufficientParts))
    } else {
        match signature_verdict(key, frames[d + 1], frames.skip(d + 2)) {
            Err(a) => Err(MessageError::Auth(a)),
            Ok(_) => Ok((frames.take(d), frames.skip(d + 2))),
        }
    }
}

/// The frames of a message: identities, delimiter, signature, parts.
pub open spec fn frames_of(identities: Seq<Seq<u8>>, signature: Seq<u8>, parts: Seq<Seq<u8>>) -> Seq<
    Seq<u8>,
> {
    identities + seq![delimiter_bytes(), signature] + parts
}

proof fn lemma_first_delimiter(frames: Seq<Seq<u8>>, i: int)
    requires
        0 <= i <= frames.len(),
        forall|k: int| 0 <= k < i ==> frames[k] != delimiter_bytes(),
        i == frames.len() || frames[i] == delimiter_bytes(),
    ensures
        first_delimiter(frames) == i,
    decreases i,
{
    if i > 0 {
        let rest = frames.drop_first();
        assert forall|k: int| 0 <= k < i - 1 implies rest[k] != delimiter_bytes() by {
            assert(rest[k] == frames[k + 1]);
        }
        if i < frames.len() {
            assert(rest[i - 1] == frames[i]);
        }
        lemma_first_delimiter(rest, i - 1);
    }
}

/// Reading the frames written for identities and four parts, signed under
/// the same key, gives back those identities and parts, as long as no
/// identity is the delimiter.
pub proof fn lemma_write_read_round_trip(key: Option<Seq<u8>>, identities: Seq<Seq<u8>>, parts: Seq<Seq<u8>>)
    requires
        parts.len() == CONTENT_PARTS,
        forall|i: int| 0 <= i < identities.len() ==> identities[i] != delimiter_bytes(),
    ensures
        read_verdict(key, frames_of(identities, encode_utf8(digest_text(key, parts)), parts)) == Ok::<
            (Seq<Seq<u8>>, Seq<Seq<u8>>),
            MessageError,
        >((identities, parts)),
{
    let sig = encode_utf8(digest_text(key, parts));
    let frames = frames_of(identities, sig, parts);
    let d = identities.len() as int;
    assert forall|k: int| 0 <= k < d implies frames[k] != delimiter_bytes() by {
        assert(frames[k] == identities[k]);
    }
    assert(frames[d] == delimiter_bytes());
    lemma_first_delimiter(frames, d);
    assert(frames[d + 1] == sig);
    assert(frames.skip(d + 2) =~= parts);
    assert(frames.take(d) =~= identities);
    lemma_digest_verifies(key, parts);
}

/// The delimiter frame.
pub fn delimiter() -> (r: Vec<u8>)
    ensures
        r@ == delimiter_bytes(),
{
    let r: Vec<u8> = vec![60u8, 73u8, 68u8, 83u8, 124u8, 77u8, 83u8, 71u8, 62u8];
    assert(r@ =~= delimiter_bytes());
    r
}

/// Whether `frame` is the delimiter.
pub fn is_delimiter(frame: &[u8]) -> (r: bool)
    ensures
        r == (frame@ == delimiter_bytes()),
{
    let d = delimiter();
    crate::signing::bytes_equal(frame, d.as_slice())
}

/// A copy of a list of frames.
pub fn copy_frames(frames: &Vec<Vec<u8>>) -> (r: Vec<Vec<u8>>)
    ensures
        r.deep_view() == frames.deep_view(),
{
    let mut r: Vec<Vec<u8>> = Vec::new();
    let mut i: usize = 0;
    while i < frames.len()
        invariant
            i <= frames.len(),
            r@.len() == i,
            forall|k: int| 0 <= k < i ==> (#[trigger] r@[k])@ == frames@[k]@,
        decreases frames.len() - i,
    {
        let c = vstd::slice::slice_to_vec(frames[i].as_slice());
        r.push(c);
        i = i + 1;
    }
    proof {
        assert forall|k: int| 0 <= k < r@.len() implies r.deep_view()[k] == frames.deep_view()[k] by {
            lemma_bytes_deep_view(r@[k]);
            lemma_bytes_deep_view(frames@[k]);
        }
        assert(r.deep_view() =~= frames.deep_view());
    }
    r
}

/// A multipart message split at its delimiter: the routing identities and
/// the four content parts. The signature is checked on the way in and made
/// anew on the way out.
pub struct RawMessage {
    pub identities: Vec<Vec<u8>>,
    pub parts: Vec<Vec<u8>>,
}

impl RawMessage {
    /// Splits the frames of one received multipart message and checks its
    /// signature with `signer`.
    pub fn read(multipart: Vec<Vec<u8>>, signer: &Signer) -> (r: Result<RawMessage, MessageError>)
        ensures
            match (r, read_verdict(signer.key_view(), multipart.deep_view())) {
                (Ok(m), Ok((ids, parts))) => m.identities.deep_view() == ids
                    && m.parts.deep_view() == parts,
                (Err(e), Err(f)) => e == f,
                _ => false,
            },
    {
        let ghost frames = multipart.deep_view();
        let mut multipart = multipart;
        let mut d: usize = 0;
        while d < multipart.len()
            invariant
                d <= multipart.len(),
                multipart.deep_view() == frames,
                forall|k: int| 0 <= k < d ==> frames[k] != delimiter_bytes(),
            ensures
                d <= multipart.len(),
                forall|k: int| 0 <= k < d ==> frames[k] != delimiter_bytes(),
                d == multipart.len() || frames[d as int] == delimiter_bytes(),
            decreases multipart.len() - d,
        {
            if is_delimiter(multipart[d].as_slice()) {
                break;
            }
            d = d + 1;
        }
        proof {
            lemma_first_delimiter(frames, d as int);
        }
        if d == multipart.len() {
            return Err(MessageError::Protocol(ProtocolError::MissingDelimiter));
        }
        if multipart.len() - d != 2 + CONTENT_PARTS {
            return Err(MessageError::Protocol(ProtocolError::InsufficientParts));
        }
        let parts = multipart.split_off(d + 2);
        let signature = multipart.pop().unwrap();
        multipart.pop();
        proof {
            assert(parts.deep_view() =~= frames.skip(d + 2));
            assert(multipart.deep_view() =~= frames.take(d as int));
            assert(signature@ == frames[d + 1]);
        }
        match signer.verify(signature.as_slice(), &parts) {
            Err(a) => Err(MessageError::Auth(a)),
            Ok(_) => Ok(RawMessage { identities: multipart, parts }),
        }
    }

    /// The frames to send: identities, delimiter, the signature of the parts,
    /// and the parts.
    pub fn to_multipart(&self, signer: &Signer) -> (r: Vec<Vec<u8>>)
        ensures
            r.deep_view() == frames_of(
                self.identities.deep_view(),
                encode_utf8(digest_text(signer.key_view(), self.parts.deep_view())),
                self.parts.deep_view(),
            ),
    {
        let signature = signer.digest(&self.parts);
        let mut r = copy_frames(&self.identities);
        r.push(delimiter());
        r.push(vstd::slice::slice_to_vec(signature.as_str().as_bytes()));
        let mut rest = copy_frames(&self.parts);
        let ghost before = r.deep_view();
        r.append(&mut rest);
        proof {
            assert(r.deep_view() =~= before + self.parts.deep_view());
            assert(r.deep_view() =~= frames_of(
                self.identities.deep_view(),
                encode_utf8(digest_text(signer.key_view(), self.parts.deep_view())),
                self.parts.deep_view(),
            ));
        }
        r
    }
}

} // verus!
