use pgpaste::errors::{App, PasteError};
use pgpaste::visibility::{to_api_visibility, Operation, Visibility};

#[test]
fn visibility_names_parse() {
    assert_eq!(to_api_visibility("public"), Ok(Visibility::Public));
    assert_eq!(to_api_visibility("protected"), Ok(Visibility::Protected));
    assert_eq!(to_api_visibility("private"), Ok(Visibility::Private));
}

#[test]
fn unknown_visibility_is_refused() {
    assert_eq!(
        to_api_visibility("secret"),
        Err("Available visibilities are `public`, `protected` and `private`".to_owned())
    );
    assert!(to_api_visibility("Public").is_err());
    assert!(to_api_visibility("").is_err());
}

#[test]
fn visibility_names_round_trip() {
    for v in [Visibility::Public, Visibility::Protected, Visibility::Private] {
        assert_eq!(Visibility::from_name(v.as_str()), Some(v));
    }
    assert_eq!(Visibility::Protected.as_str(), "protected");
}

#[test]
fn visibility_selects_operation() {
    assert_eq!(Visibility::Public.operation(), Operation::Sign);
    assert_eq!(Visibility::Protected.operation(), Operation::SignAndProtect);
    assert_eq!(Visibility::Private.operation(), Operation::SignAndEncrypt);
    assert!(!Visibility::Public.is_encrypted());
    assert!(Visibility::Protected.is_encrypted());
    assert!(Visibility::Private.is_encrypted());
}

#[test]
fn error_status_classes() {
    assert_eq!(PasteError::PasteNotFound.status_code(), 404);
    for e in [
        PasteError::InvalidCert,
        PasteError::InvalidMessageStructure,
        PasteError::SignatureVerificationFailed,
        PasteError::CertificateUnknown,
        PasteError::MsgPackBodyIsInvalid,
        PasteError::InvalidBurnIn,
        PasteError::PasteIsPrivate,
        PasteError::PasteIsProtected,
    ] {
        assert_eq!(e.status_code(), 400);
    }
    assert_eq!(PasteError::PasteNotFound.message(), "Paste not found");
    assert_eq!(App::NotFound.status_code(), 404);
    assert_eq!(App::NotFound.message(), "Not Found");
}
