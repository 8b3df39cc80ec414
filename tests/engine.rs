use pgpaste::engine::{
    certs_for_handles, check_structure, decryption_keys, default_cert, encryption_recipients,
    plan_decryption, signing_key, Attempt, EngineError, KeyInfo, Layer, SecretKeyEntry,
    SessionKeyPacket,
};

fn key() -> KeyInfo {
    KeyInfo {
        valid: true,
        alive: true,
        revoked: false,
        supported: true,
        has_secret: true,
        for_signing: false,
        for_transport_encryption: false,
        for_storage_encryption: false,
    }
}

#[test]
fn first_usable_signing_key_is_chosen() {
    let certify = key();
    let revoked = KeyInfo { for_signing: true, revoked: true, ..key() };
    let expired = KeyInfo { for_signing: true, alive: false, ..key() };
    let public_only = KeyInfo { for_signing: true, has_secret: false, ..key() };
    let good = KeyInfo { for_signing: true, ..key() };
    let keys = vec![certify, revoked, expired, public_only, good, good];
    assert_eq!(signing_key(&keys), Ok(4));
}

#[test]
fn no_signing_key() {
    let keys = vec![key(), KeyInfo { for_signing: true, valid: false, ..key() }];
    assert_eq!(signing_key(&keys), Err(EngineError::NoSigningKey));
    assert_eq!(signing_key(&Vec::new()), Err(EngineError::NoSigningKey));
}

#[test]
fn recipients_are_transport_subkeys() {
    let transport = KeyInfo { for_transport_encryption: true, has_secret: false, ..key() };
    let storage = KeyInfo { for_storage_encryption: true, ..key() };
    let unsupported = KeyInfo { supported: false, ..transport };
    let revoked = KeyInfo { revoked: true, ..transport };
    let keys = vec![key(), transport, storage, unsupported, revoked, transport];
    assert_eq!(encryption_recipients(&keys), vec![1, 5]);
}

#[test]
fn decryption_keys_need_secrets() {
    let transport = KeyInfo { for_transport_encryption: true, ..key() };
    let storage = KeyInfo { for_storage_encryption: true, ..key() };
    let invalid = KeyInfo { valid: false, ..transport };
    assert_eq!(decryption_keys(&vec![key(), transport, invalid, storage]), Ok(vec![1, 3]));
    let no_secret = KeyInfo { has_secret: false, ..storage };
    assert_eq!(
        decryption_keys(&vec![transport, no_secret]),
        Err(EngineError::MissingSecret)
    );
}

#[test]
fn default_cert_by_handle() {
    let handles = vec![vec![1u8, 2], vec![3u8, 4], vec![3u8, 4]];
    assert_eq!(default_cert(&handles, &[3, 4]), Ok(1));
    assert_eq!(default_cert(&handles, &[3]), Err(EngineError::UnknownDefaultKey));
}

#[test]
fn one_bad_signature_rejects_the_message() {
    let layers = vec![
        Layer::Compression,
        Layer::SignatureGroup { results: vec![true, true] },
        Layer::Encryption,
        Layer::SignatureGroup { results: vec![true, false] },
    ];
    assert_eq!(check_structure(&layers), Err(EngineError::SignatureVerificationFailed));
}

#[test]
fn valid_signatures_are_accepted() {
    let layers = vec![
        Layer::Encryption,
        Layer::SignatureGroup { results: vec![true] },
        Layer::SignatureGroup { results: vec![] },
    ];
    assert_eq!(check_structure(&layers), Ok(()));
    assert_eq!(check_structure(&Vec::new()), Ok(()));
}

#[test]
fn certs_are_matched_by_key_handle() {
    let certs = vec![
        vec![vec![1u8], vec![11u8]],
        vec![vec![2u8]],
        vec![vec![3u8], vec![33u8], vec![34u8]],
        vec![],
    ];
    let handles = vec![vec![34u8], vec![9u8], vec![1u8]];
    assert_eq!(certs_for_handles(&certs, &handles), vec![0, 2]);
    assert_eq!(certs_for_handles(&certs, &vec![vec![11u8]]), vec![0]);
    assert_eq!(certs_for_handles(&certs, &Vec::new()), Vec::<usize>::new());
}

fn packet(id: u8, supported: bool) -> SessionKeyPacket {
    SessionKeyPacket { recipient: vec![id], algorithm_supported: supported }
}

fn secret(id: u8, protected: bool) -> SecretKeyEntry {
    SecretKeyEntry { key_id: vec![id], protected }
}

#[test]
fn decryption_strategies_in_priority_order() {
    let packets = vec![packet(7, true), packet(1, true), packet(2, false), packet(3, true)];
    let secrets = vec![secret(3, true), secret(1, false), secret(2, true)];
    let plan = plan_decryption(&packets, &secrets, 1).unwrap();
    assert_eq!(
        plan,
        vec![
            Attempt::Unprotected { packet: 1, secret: 1 },
            Attempt::Unlock { packet: 3, secret: 0 },
            Attempt::Password,
        ]
    );
}

#[test]
fn password_only_message() {
    let plan = plan_decryption(&Vec::new(), &vec![secret(1, false)], 2).unwrap();
    assert_eq!(plan, vec![Attempt::Password]);
}

#[test]
fn unrelated_key_cannot_decrypt() {
    let packets = vec![packet(5, true), packet(6, true)];
    let secrets = vec![secret(1, false), secret(2, true)];
    assert_eq!(plan_decryption(&packets, &secrets, 0), Err(EngineError::NoDecryptionKey));
    assert_eq!(plan_decryption(&Vec::new(), &Vec::new(), 0), Err(EngineError::NoDecryptionKey));
}
