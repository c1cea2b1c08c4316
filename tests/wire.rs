use box_kernel::error::{AuthError, MessageError, ProtocolError};
use box_kernel::signing::Signer;
use box_kernel::wire::{delimiter, is_delimiter, RawMessage};

fn frames(texts: &[&str]) -> Vec<Vec<u8>> {
    texts.iter().map(|t| t.as_bytes().to_vec()).collect()
}

#[test]
fn delimiter_is_ids_msg() {
    assert_eq!(delimiter(), b"<IDS|MSG>".to_vec());
    assert!(is_delimiter(b"<IDS|MSG>"));
    assert!(!is_delimiter(b"<IDS|MSG"));
}

#[test]
fn read_splits_identities_and_parts() {
    let signer = Signer::new("");
    let f = frames(&["id1", "id2", "<IDS|MSG>", "", "{}", "{}", "{}", "{}"]);
    let raw = RawMessage::read(f, &signer).unwrap();
    assert_eq!(raw.identities, frames(&["id1", "id2"]));
    assert_eq!(raw.parts, frames(&["{}", "{}", "{}", "{}"]));
}

#[test]
fn missing_delimiter_is_a_protocol_error() {
    let signer = Signer::new("");
    let f = frames(&["id1", "", "{}", "{}", "{}", "{}"]);
    assert_eq!(
        RawMessage::read(f, &signer).err(),
        Some(MessageError::Protocol(ProtocolError::MissingDelimiter))
    );
}

#[test]
fn malformed_then_well_formed_message() {
    let signer = Signer::new("key");
    let bad = frames(&["{}", "{}", "{}", "{}"]);
    assert_eq!(
        RawMessage::read(bad, &signer).err(),
        Some(MessageError::Protocol(ProtocolError::MissingDelimiter))
    );
    let good = RawMessage { identities: frames(&["a"]), parts: frames(&["{}", "{}", "{}", "{}"]) };
    let sent = good.to_multipart(&signer);
    let back = RawMessage::read(sent, &signer).unwrap();
    assert_eq!(back.identities, frames(&["a"]));
    assert_eq!(back.parts, frames(&["{}", "{}", "{}", "{}"]));
}

#[test]
fn wrong_number_of_parts_is_a_protocol_error() {
    let signer = Signer::new("");
    for f in [
        frames(&["<IDS|MSG>"]),
        frames(&["<IDS|MSG>", "", "{}", "{}", "{}"]),
        frames(&["<IDS|MSG>", "", "{}", "{}", "{}", "{}", "{}"]),
    ] {
        assert_eq!(
            RawMessage::read(f, &signer).err(),
            Some(MessageError::Protocol(ProtocolError::InsufficientParts))
        );
    }
}

#[test]
fn first_delimiter_splits() {
    let signer = Signer::new("");
    let f = frames(&["<IDS|MSG>", "", "{}", "{}", "{}", "<IDS|MSG>"]);
    let raw = RawMessage::read(f, &signer).unwrap();
    assert!(raw.identities.is_empty());
    assert_eq!(raw.parts[3], b"<IDS|MSG>".to_vec());
}

#[test]
fn to_multipart_lays_out_frames_with_signature() {
    let signer = Signer::new("secret");
    let raw = RawMessage { identities: frames(&["id"]), parts: frames(&["{}", "{}", "{}", "{}"]) };
    let f = raw.to_multipart(&signer);
    assert_eq!(f.len(), 7);
    assert_eq!(f[0], b"id".to_vec());
    assert_eq!(f[1], b"<IDS|MSG>".to_vec());
    assert_eq!(f[2], signer.digest(&raw.parts).into_bytes());
    assert_eq!(f[2].len(), 64);
    assert_eq!(&f[3..], &raw.parts[..]);
}

#[test]
fn unsigned_message_is_sent_with_empty_signature() {
    let signer = Signer::new("");
    let raw = RawMessage { identities: vec![], parts: frames(&["{}", "{}", "{}", "{}"]) };
    let f = raw.to_multipart(&signer);
    assert_eq!(f, frames(&["<IDS|MSG>", "", "{}", "{}", "{}", "{}"]));
    assert!(RawMessage::read(f, &signer).is_ok());
}

#[test]
fn signature_mismatch_is_an_auth_error() {
    let signer = Signer::new("secret");
    let other = Signer::new("other");
    let raw = RawMessage { identities: vec![], parts: frames(&["{}", "{}", "{}", "{}"]) };
    let f = raw.to_multipart(&other);
    assert_eq!(
        RawMessage::read(f, &signer).err(),
        Some(MessageError::Auth(AuthError::SignatureMismatch))
    );
}
