use pgpaste::content_type::{
    has_msgpack_content_type, has_pgp_signature_content_type, is_msgpack_media,
    is_pgp_signature_media,
};

#[test]
fn msgpack_content_types() {
    assert!(has_msgpack_content_type(Some("application/msgpack")));
    assert!(has_msgpack_content_type(Some("application/vnd.pgpaste+msgpack")));
    assert!(has_msgpack_content_type(Some("application/msgpack; charset=utf-8")));
    assert!(!has_msgpack_content_type(Some("text/plain")));
    assert!(!has_msgpack_content_type(Some("application/json")));
    assert!(!has_msgpack_content_type(Some("not a mime type")));
    assert!(!has_msgpack_content_type(None));
}

#[test]
fn content_type_case_is_folded_by_the_parser() {
    assert!(has_msgpack_content_type(Some("Application/MsgPack")));
    assert!(has_pgp_signature_content_type(Some("APPLICATION/PGP-SIGNATURE")));
}

#[test]
fn pgp_signature_content_types() {
    assert!(has_pgp_signature_content_type(Some("application/pgp-signature")));
    assert!(!has_pgp_signature_content_type(Some("application/pgp-encrypted")));
    assert!(!has_pgp_signature_content_type(Some("text/pgp-signature")));
    assert!(!has_pgp_signature_content_type(None));
}

#[test]
fn media_parts() {
    assert!(is_msgpack_media("application", "msgpack", None));
    assert!(is_msgpack_media("application", "x", Some("msgpack")));
    assert!(!is_msgpack_media("text", "msgpack", None));
    assert!(is_pgp_signature_media("application", "pgp-signature"));
    assert!(!is_pgp_signature_media("application", "msgpack"));
}
