use vstd::prelude::*;
use vstd::utf8::*;

use crate::error::AuthError;
use hmac::{Hmac, Mac, NewMac};
use sha2::Sha256;

verus! {

/// A byte vector's deep view is its view.
pub broadcast proof fn lemma_bytes_deep_view(v: Vec<u8>)
    ensures
        #[trigger] v.deep_view() == v@,
{
    assert(v.deep_view() =~= v@);
}

/// The character of the lowercase hexadecimal digit `v` (`0 <= v < 16`).
pub open spec fn hex_digit(v: int) -> char {
    if v < 10 {
        ((48 + v) as u8) as char
    } else {
        ((87 + v) as u8) as char
    }
}

/// Lowercase hexadecimal text of `b`: two digits per byte, high nibble first.
pub open spec fn hex_lower(b: Seq<u8>) -> Seq<char> {
    Seq::new(
        2 * b.len(),
        |i: int|
            if i % 2 == 0 {
                hex_digit(b[i / 2] as int / 16)
            } else {
                hex_digit(b[i / 2] as int % 16)
            },
    )
}

/// The value of a hexadecimal digit of either case, or -1 for any other byte.
pub open spec fn hex_value(c: u8) -> int {
    if 48 <= c <= 57 {
        c - 48
    } else if 97 <= c <= 102 {
        c - 87
    } else if 65 <= c <= 70 {
        c - 55
    } else {
        -1
    }
}

/// `s` is an even number of hexadecimal digits.
pub open spec fn is_hex_text(s: Seq<u8>) -> bool {
    &&& s.len() % 2 == 0
    &&& forall|i: int| 0 <= i < s.len() ==> hex_value(#[trigger] s[i]) >= 0
}

/// The bytes that the digit pairs of `s` stand for.
pub open spec fn hex_decoded(s: Seq<u8>) -> Seq<u8> {
    Seq::new(s.len() / 2, |i: int| (hex_value(s[2 * i]) * 16 + hex_value(s[2 * i + 1])) as u8)
}

/// The HMAC-SHA256 tag of `data` under `key`.
pub uninterp spec fn hmac_sha256_of(key: Seq<u8>, data: Seq<u8>) -> Seq<u8>;

/// The content parts, one after the other: the data that a signature covers.
pub open spec fn concat_frames(parts: Seq<Seq<u8>>) -> Seq<u8>
    decreases parts.len(),
{
    if parts.len() == 0 {
        Seq::empty()
    } else {
        concat_frames(parts.drop_last()) + parts.last()
    }
}

/// The signature text of `parts`: empty without a key, else the lowercase
/// hexadecimal HMAC-SHA256 tag of the parts.
pub open spec fn digest_text(key: Option<Seq<u8>>, parts: Seq<Seq<u8>>) -> Seq<char> {
    match key {
        None => Seq::empty(),
        Some(k) => hex_lower(hmac_sha256_of(k, concat_frames(parts))),
    }
}

/// What checking the signature frame `sig` of `parts` gives.
pub open spec fn signature_verdict(key: Option<Seq<u8>>, sig: Seq<u8>, parts: Seq<Seq<u8>>) -> Result<(), AuthError> {
    match key {
        None => Ok(()),
        Some(k) => if !is_hex_text(sig) {
            Err(AuthError::MalformedSignature)
        } else if hex_decoded(sig) == hmac_sha256_of(k, concat_frames(parts)) {
            Ok(())
        } else {
            Err(AuthError::SignatureMismatch)
        },
    }
}

proof fn lemma_hex_digit(v: int)
    requires
        0 <= v < 16,
    ensures
        '\0' <= hex_digit(v) <= '\u{7f}',
        hex_value(hex_digit(v) as u8) == v,
{
}

/// Hexadecimal text is ASCII, and the digits' bytes decode to the bytes that
/// the text was made from.
pub proof fn lemma_hex_round_trip(b: Seq<u8>)
    ensures
        is_ascii_chars(hex_lower(b)),
        is_hex_text(encode_utf8(hex_lower(b))),
        hex_decoded(encode_utf8(hex_lower(b))) == b,
{
    let h = hex_lower(b);
    assert forall|i: int| 0 <= i < h.len() implies '\0' <= #[trigger] h[i] <= '\u{7f}' && hex_value(
        h[i] as u8,
    ) >= 0 by {
        if i % 2 == 0 {
            lemma_hex_digit(b[i / 2] as int / 16);
        } else {
            lemma_hex_digit(b[i / 2] as int % 16);
        }
    }
    is_ascii_chars_encode_utf8(h);
    let e = encode_utf8(h);
    assert(is_hex_text(e)) by {
        assert forall|i: int| 0 <= i < e.len() implies hex_value(#[trigger] e[i]) >= 0 by {
            assert(h[i] as u8 == e[i]);
        }
    }
    assert forall|i: int| 0 <= i < b.len() implies #[trigger] hex_decoded(e)[i] == b[i] by {
        let x = b[i] as int;
        lemma_hex_digit(x / 16);
        lemma_hex_digit(x % 16);
        assert(h[2 * i] == hex_digit(x / 16));
        assert(h[2 * i + 1] == hex_digit(x % 16));
        assert(e[2 * i] == h[2 * i] as u8);
        assert(e[2 * i + 1] == h[2 * i + 1] as u8);
        assert((x / 16) * 16 + x % 16 == x);
    }
    assert(hex_decoded(e) =~= b);
}

/// A digest made under any key, or under none, verifies against the parts
/// it was made over.
pub proof fn lemma_digest_verifies(key: Option<Seq<u8>>, parts: Seq<Seq<u8>>)
    ensures
        signature_verdict(key, encode_utf8(digest_text(key, parts)), parts) == Ok::<(), AuthError>(()),
{
    match key {
        None => {},
        Some(k) => {
            lemma_hex_round_trip(hmac_sha256_of(k, concat_frames(parts)));
        },
    }
}

proof fn lemma_concat_frames_append(a: Seq<Seq<u8>>, b: Seq<Seq<u8>>)
    ensures
        concat_frames(a + b) == concat_frames(a) + concat_frames(b),
    decreases b.len(),
{
    if b.len() == 0 {
        assert(a + b == a);
        assert(concat_frames(a) + concat_frames(b) == concat_frames(a));
    } else {
        lemma_concat_frames_append(a, b.drop_last());
        assert((a + b).drop_last() == a + b.drop_last());
        assert((a + b).last() == b.last());
        assert(concat_frames(a) + concat_frames(b.drop_last()) + b.last() == concat_frames(a) + (
        concat_frames(b.drop_last()) + b.last()));
    }
}

proof fn lemma_concat_frames_split(parts: Seq<Seq<u8>>, i: int)
    requires
        0 <= i < parts.len(),
    ensures
        concat_frames(parts) == concat_frames(parts.take(i)) + parts[i] + concat_frames(
            parts.skip(i + 1),
        ),
{
    let pre = parts.take(i);
    let post = parts.skip(i + 1);
    let one = seq![parts[i]];
    assert(parts == pre + one + post);
    lemma_concat_frames_append(pre + one, post);
    lemma_concat_frames_append(pre, one);
    assert(one.drop_last() == Seq::<Seq<u8>>::empty());
    assert(concat_frames(Seq::<Seq<u8>>::empty()) + parts[i] == parts[i]);
}

/// Changing one byte of one content part changes the data that a signature
/// covers. So a signature made for the parts as they were verifies against the
/// changed ones only when HMAC-SHA256 gives both data the same tag under the
/// key.
pub proof fn lemma_changed_byte_needs_tag_collision(k: Seq<u8>, parts: Seq<Seq<u8>>, i: int, j: int, b: u8)
    requires
        0 <= i < parts.len(),
        0 <= j < parts[i].len(),
        b != parts[i][j],
    ensures
        ({
            let changed = parts.update(i, parts[i].update(j, b));
            &&& concat_frames(changed) != concat_frames(parts)
            &&& (signature_verdict(Some(k), encode_utf8(digest_text(Some(k), parts)), changed)
                is Ok) == (hmac_sha256_of(k, concat_frames(changed)) == hmac_sha256_of(
                k,
                concat_frames(parts),
            ))
        }),
{
    let changed = parts.update(i, parts[i].update(j, b));
    lemma_concat_frames_split(parts, i);
    lemma_concat_frames_split(changed, i);
    assert(changed.take(i) == parts.take(i));
    assert(changed.skip(i + 1) == parts.skip(i + 1));
    let n = concat_frames(parts.take(i)).len();
    assert(concat_frames(parts)[n + j] == parts[i][j]);
    assert(concat_frames(changed)[n + j] == b);
    lemma_hex_round_trip(hmac_sha256_of(k, concat_frames(parts)));
}

/// Relies on hex::encode: two lowercase digits per byte, high nibble first.
#[verifier::external_body]
fn hex_encode(b: &[u8]) -> (r: String)
    ensures
        r@ == hex_lower(b@),
{
    hex::encode(b)
}

/// Relies on hex::decode: digit pairs of either case; an odd count or any
/// other byte is an error.
#[verifier::external_body]
fn hex_decode(s: &[u8]) -> (r: Option<Vec<u8>>)
    ensures
        match r {
            Some(v) => is_hex_text(s@) && v@ == hex_decoded(s@),
            None => !is_hex_text(s@),
        },
{
    hex::decode(s).ok()
}

/// Relies on hmac's `Hmac<Sha256>`: `new_from_slice` accepts a key of any
/// length, and the finalized tag is the 32-byte HMAC-SHA256 of `data`.
#[verifier::external_body]
fn hmac_sha256(key: &[u8], data: &[u8]) -> (r: Vec<u8>)
    ensures
        r@ == hmac_sha256_of(key@, data@),
        r@.len() == 32,
{
    match Hmac::<Sha256>::new_from_slice(key) {
        Ok(mut mac) => {
            mac.update(data);
            mac.finalize().into_bytes().to_vec()
        },
        Err(_) => Vec::new(),
    }
}

/// The parts, one after the other.
pub fn concat_parts(parts: &Vec<Vec<u8>>) -> (r: Vec<u8>)
    ensures
        r@ == concat_frames(parts.deep_view()),
{
    let mut r: Vec<u8> = Vec::new();
    let mut i: usize = 0;
    while i < parts.len()
        invariant
            i <= parts.len(),
            r@ == concat_frames(parts.deep_view().take(i as int)),
        decreases parts.len() - i,
    {
        let part = &parts[i];
        let ghost before = r@;
        let mut j: usize = 0;
        while j < part.len()
            invariant
                j <= part.len(),
                r@ == before + part@.take(j as int),
            decreases part.len() - j,
        {
            r.push(part[j]);
            proof {
                assert(part@.take(j as int + 1) == part@.take(j as int).push(part@[j as int]));
            }
            j = j + 1;
        }
        proof {
            let dv = parts.deep_view();
            assert(dv.take(i as int + 1).drop_last() == dv.take(i as int));
            assert(part@.take(j as int) == part@);
        }
        i = i + 1;
    }
    proof {
        assert(parts.deep_view().take(i as int) == parts.deep_view());
    }
    r
}

/// Equality of two byte strings.
pub fn bytes_equal(a: &[u8], b: &[u8]) -> (r: bool)
    ensures
        r == (a@ == b@),
{
    if a.len() != b.len() {
        return false;
    }
    let mut i: usize = 0;
    while i < a.len()
        invariant
            a@.len() == b@.len(),
            i <= a.len(),
            forall|k: int| 0 <= k < i ==> a@[k] == b@[k],
        decreases a.len() - i,
    {
        if a[i] != b[i] {
            return false;
        }
        i = i + 1;
    }
    proof {
        assert(a@ =~= b@);
    }
    true
}

/// The signing half of a connection: an optional shared key. Without a key,
/// messages go out with an empty signature and any signature is accepted.
pub struct Signer {
    key: Option<Vec<u8>>,
}

impl Signer {
    /// The key's bytes, if signing is enabled.
    pub closed spec fn key_view(&self) -> Option<Seq<u8>> {
        match self.key {
            Some(k) => Some(k@),
            None => None,
        }
    }

    /// A signer for the shared secret `key`; an empty key disables signing.
    pub fn new(key: &str) -> (r: Signer)
        ensures
            r.key_view() == (if key@.len() == 0 {
                None
            } else {
                Some(encode_utf8(key@))
            }),
    {
        if key.is_empty() {
            Signer { key: None }
        } else {
            Signer { key: Some(vstd::slice::slice_to_vec(key.as_bytes())) }
        }
    }

    /// Whether signing is enabled.
    pub fn is_enabled(&self) -> (r: bool)
        ensures
            r == self.key_view().is_some(),
    {
        self.key.is_some()
    }

    /// The signature text of the content parts.
    pub fn digest(&self, parts: &Vec<Vec<u8>>) -> (r: String)
        ensures
            r@ == digest_text(self.key_view(), parts.deep_view()),
    {
        match &self.key {
            None => String::new(),
            Some(k) => {
                let data = concat_parts(parts);
                let tag = hmac_sha256(k.as_slice(), data.as_slice());
                hex_encode(tag.as_slice())
            },
        }
    }

    /// Checks the signature frame `signature` of the content parts.
    pub fn verify(&self, signature: &[u8], parts: &Vec<Vec<u8>>) -> (r: Result<(), AuthError>)
        ensures
            r == signature_verdict(self.key_view(), signature@, parts.deep_view()),
    {
        match &self.key {
            None => Ok(()),
            Some(k) => {
                match hex_decode(signature) {
                    None => Err(AuthError::MalformedSignature),
                    Some(received) => {
                        let data = concat_parts(parts);
                        let tag = hmac_sha256(k.as_slice(), data.as_slice());
                        if bytes_equal(received.as_slice(), tag.as_slice()) {
                            Ok(())
                        } else {
                            Err(AuthError::SignatureMismatch)
                        }
                    },
                }
            },
        }
    }
}

} // verus!
