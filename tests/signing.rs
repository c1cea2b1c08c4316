use box_kernel::error::AuthError;
use box_kernel::signing::{bytes_equal, concat_parts, Signer};

fn parts(texts: &[&str]) -> Vec<Vec<u8>> {
    texts.iter().map(|t| t.as_bytes().to_vec()).collect()
}

#[test]
fn empty_key_disables_signing() {
    let signer = Signer::new("");
    assert!(!signer.is_enabled());
    assert_eq!(signer.digest(&parts(&["{}", "{}", "{}", "{}"])), "");
    assert_eq!(signer.verify(b"", &parts(&["{}", "{}", "{}", "{}"])), Ok(()));
    assert_eq!(signer.verify(b"not hex at all", &parts(&["{}"])), Ok(()));
}

#[test]
fn digest_is_hmac_sha256_of_concatenated_parts() {
    // RFC 4231, test case 2, with the data split over two parts.
    let signer = Signer::new("Jefe");
    assert!(signer.is_enabled());
    let d = signer.digest(&parts(&["what do ya want ", "for nothing?"]));
    assert_eq!(d, "5bdcc146bf60754e6a042426089575c75a003f089d2739839dec58b964ec3843");
}

#[test]
fn digest_verifies_against_its_parts() {
    let signer = Signer::new("secret");
    let p = parts(&["{\"msg_type\":\"x\"}", "{}", "{}", "{\"code\":\"1+1\"}"]);
    let d = signer.digest(&p);
    assert_eq!(d.len(), 64);
    assert_eq!(signer.verify(d.as_bytes(), &p), Ok(()));
    assert_eq!(signer.verify(d.to_uppercase().as_bytes(), &p), Ok(()));
}

#[test]
fn flipped_byte_fails_verification() {
    let signer = Signer::new("secret");
    let p = parts(&["{}", "{}", "{}", "{\"code\":\"1+1\"}"]);
    let d = signer.digest(&p);
    for i in 0..p.len() {
        for j in 0..p[i].len() {
            let mut q = p.clone();
            q[i][j] ^= 0x01;
            assert_eq!(signer.verify(d.as_bytes(), &q), Err(AuthError::SignatureMismatch));
        }
    }
}

#[test]
fn malformed_signature_is_rejected() {
    let signer = Signer::new("secret");
    let p = parts(&["{}", "{}", "{}", "{}"]);
    assert_eq!(signer.verify(b"abc", &p), Err(AuthError::MalformedSignature));
    assert_eq!(signer.verify(b"zz", &p), Err(AuthError::MalformedSignature));
    assert_eq!(signer.verify(b"", &p), Err(AuthError::SignatureMismatch));
}

#[test]
fn concat_and_compare_bytes() {
    assert_eq!(concat_parts(&parts(&["ab", "", "c"])), b"abc".to_vec());
    assert!(bytes_equal(b"abc", b"abc"));
    assert!(!bytes_equal(b"abc", b"abd"));
    assert!(!bytes_equal(b"abc", b"ab"));
}
