use pgpaste::errors::PasteError;
use pgpaste::message::{issuer_fingerprint, issuer_from_parsed};
use pgpaste::resolver::{KeyCache, Lookup};
use sequoia_openpgp::cert::CertBuilder;
use sequoia_openpgp::policy::StandardPolicy;
use sequoia_openpgp::serialize::stream::{LiteralWriter, Message, Signer};
use std::io::Write;

fn signed(content: &[u8]) -> (Vec<u8>, Vec<u8>) {
    let (cert, _) = CertBuilder::general_purpose(None, Some("alice@example.org"))
        .generate()
        .unwrap();
    let policy = StandardPolicy::new();
    let keypair = cert
        .keys()
        .unencrypted_secret()
        .with_policy(&policy, None)
        .supported()
        .alive()
        .revoked(false)
        .for_signing()
        .next()
        .unwrap()
        .key()
        .clone()
        .into_keypair()
        .unwrap();
    let fingerprint = keypair.public().fingerprint().as_bytes().to_vec();
    let mut sink = Vec::new();
    {
        let message = Message::new(&mut sink);
        let signer = Signer::new(message, keypair).build().unwrap();
        let mut literal = LiteralWriter::new(signer).build().unwrap();
        literal.write_all(content).unwrap();
        literal.finalize().unwrap();
    }
    (sink, fingerprint)
}

#[test]
fn issuer_of_signed_message() {
    let (message, fingerprint) = signed(b"hello");
    assert_eq!(issuer_fingerprint(&message), Ok(fingerprint));
}

#[test]
fn unsigned_message_has_no_issuer() {
    let mut sink = Vec::new();
    {
        let message = Message::new(&mut sink);
        let mut literal = LiteralWriter::new(message).build().unwrap();
        literal.write_all(b"plain").unwrap();
        literal.finalize().unwrap();
    }
    assert_eq!(issuer_fingerprint(&sink), Err(PasteError::InvalidMessageStructure));
}

#[test]
fn garbage_is_no_message() {
    assert_eq!(issuer_fingerprint(b"not an openpgp message"), Err(PasteError::InvalidCert));
    assert_eq!(issuer_fingerprint(&[]), Err(PasteError::InvalidCert));
}

#[test]
fn issuer_from_parsed_values() {
    assert_eq!(issuer_from_parsed(None), Err(PasteError::InvalidCert));
    assert_eq!(issuer_from_parsed(Some(None)), Err(PasteError::InvalidMessageStructure));
    assert_eq!(issuer_from_parsed(Some(Some(vec![4, 2]))), Ok(vec![4, 2]));
}

#[test]
fn message_shape_is_checked() {
    let (message, _) = signed(b"body");
    assert_eq!(pgpaste::message::check_message(&message), Ok(()));
    assert_eq!(pgpaste::message::check_message(b"junk"), Err(PasteError::InvalidCert));
}

#[test]
fn signer_is_looked_up_then_cached() {
    let (message, fingerprint) = signed(b"body");
    let mut cache = KeyCache::new();
    let (fp, found) = pgpaste::message::signer_lookup(&cache, &message).unwrap();
    assert_eq!(fp, fingerprint);
    assert!(matches!(found, Lookup::Discover));
    cache.record_discovery(&fp, Some(vec![7, 7])).unwrap();
    let (_, found) = pgpaste::message::signer_lookup(&cache, &message).unwrap();
    match found {
        Lookup::Cached(k) => assert_eq!(k.cert, vec![7, 7]),
        Lookup::Discover => panic!("a stored key must be found"),
    }
    assert!(pgpaste::message::signer_lookup(&cache, b"junk").is_err());
}
