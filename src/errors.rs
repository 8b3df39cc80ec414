//! Errors reported to callers, and the status class each one maps to.

use vstd::prelude::*;

verus! {

/// An error caused by the request, reported to the caller with its reason.
#[derive(Clone, Copy, Debug, PartialEq, Eq, Structural)]
pub enum PasteError {
    /// The message or certificate could not be parsed.
    InvalidCert,
    /// The message has no signature naming its issuer.
    InvalidMessageStructure,
    /// The message's signature does not verify against the issuer's certificate.
    SignatureVerificationFailed,
    /// The key-discovery service does not know the issuer's certificate.
    CertificateUnknown,
    /// The signed body is not a valid MessagePack request.
    MsgPackBodyIsInvalid,
    /// No live paste has the requested slug.
    PasteNotFound,
    /// The requested lifetime is outside what a paste may have.
    InvalidBurnIn,
    /// The paste is private and cannot be accessed like this.
    PasteIsPrivate,
    /// The paste is protected and cannot be accessed without a password.
    PasteIsProtected,
}

/// The HTTP status of each error.
pub open spec fn status_of(e: PasteError) -> u16 {
    match e {
        PasteError::PasteNotFound => 404,
        _ => 400,
    }
}

/// The reason given to the caller for each error.
pub open spec fn reason_of(e: PasteError) -> Seq<char> {
    match e {
        PasteError::InvalidCert => "Invalid cert"@,
        PasteError::InvalidMessageStructure => "Invalid message structure"@,
        PasteError::SignatureVerificationFailed => "Invalid signature"@,
        PasteError::CertificateUnknown => "Certificate is not known within the default keyserver `keys.openpgp.org`"@,
        PasteError::MsgPackBodyIsInvalid => "Request body is not valid MessagePack"@,
        PasteError::PasteNotFound => "Paste not found"@,
        PasteError::InvalidBurnIn => "Burn date is too far in the future"@,
        PasteError::PasteIsPrivate => "Paste is private and cannot be accessed like this"@,
        PasteError::PasteIsProtected => "Paste is protected and cannot be accessed without a password"@,
    }
}

impl PasteError {
    /// The HTTP status of the error: "not found" for an absent paste, "bad
    /// request" for everything else.
    pub fn status_code(&self) -> (r: u16)
        ensures
            r == status_of(*self),
    {
        match self {
            PasteError::PasteNotFound => 404,
            _ => 400,
        }
    }

    /// The reason given to the caller.
    pub fn message(&self) -> (r: &'static str)
        ensures
            r@ == reason_of(*self),
    {
        match self {
            PasteError::InvalidCert => "Invalid cert",
            PasteError::InvalidMessageStructure => "Invalid message structure",
            PasteError::SignatureVerificationFailed => "Invalid signature",
            PasteError::CertificateUnknown => "Certificate is not known within the default keyserver `keys.openpgp.org`",
            PasteError::MsgPackBodyIsInvalid => "Request body is not valid MessagePack",
            PasteError::PasteNotFound => "Paste not found",
            PasteError::InvalidBurnIn => "Burn date is too far in the future",
            PasteError::PasteIsPrivate => "Paste is private and cannot be accessed like this",
            PasteError::PasteIsProtected => "Paste is protected and cannot be accessed without a password",
        }
    }
}

/// An error page of the web front end.
#[derive(Clone, Copy, Debug, PartialEq, Eq, Structural)]
pub enum App {
    /// The page asked for does not exist or was moved.
    NotFound,
}

impl App {
    /// The HTTP status of the error page.
    pub fn status_code(&self) -> (r: u16)
        ensures
            r == 404,
    {
        match self {
            App::NotFound => 404,
        }
    }

    /// The text shown for the error.
    pub fn message(&self) -> (r: &'static str)
        ensures
            r@ == "Not Found"@,
    {
        match self {
            App::NotFound => "Not Found",
        }
    }
}

} // verus!
