//! The issuer of a signed OpenPGP message, which names the key a paste
//! belongs to.

use crate::bytes::first_index_of;
use crate::errors::PasteError;
use crate::resolver::{fingerprints, KeyCache, Lookup};
use sequoia_openpgp::parse::Parse;
use vstd::prelude::*;

verus! {

/// What `sequoia-openpgp` reads from message bytes: `None` when they are not
/// a well-formed OpenPGP message; otherwise the first issuer fingerprint of
/// the first version 4 signature, walking the packets depth first, if any.
pub uninterp spec fn message_issuer(b: Seq<u8>) -> Option<Option<Seq<u8>>>;

/// Relies on `sequoia_openpgp::Message::from_bytes` to parse a message, and on
/// `PacketPile::descendants` and `Signature4::issuer_fingerprints` to find the
/// signer's fingerprint.
#[verifier::external_body]
fn read_issuer(message: &[u8]) -> (r: Option<Option<Vec<u8>>>)
    ensures
        r matches Some(Some(fp)) ==> message_issuer(message@) == Some(Some(fp@)),
        r matches Some(None) ==> message_issuer(message@) == Some(None::<Seq<u8>>),
        r is None ==> message_issuer(message@) is None,
{
    match sequoia_openpgp::Message::from_bytes(message) {
        Ok(m) => Some(m.descendants().find_map(|p| match p {
            sequoia_openpgp::Packet::Signature(sequoia_openpgp::packet::Signature::V4(sig)) => sig.issuer_fingerprints().next(),
            _ => None,
        }).map(|fp| fp.as_bytes().to_vec())),
        Err(_) => None,
    }
}

/// The view of what was read from a message.
pub open spec fn parsed_view(p: Option<Option<Vec<u8>>>) -> Option<Option<Seq<u8>>> {
    match p {
        None => None,
        Some(None) => Some(None),
        Some(Some(fp)) => Some(Some(fp@)),
    }
}

/// The signer's fingerprint, from what was read of a message: `InvalidCert`
/// when the bytes were no OpenPGP message, `InvalidMessageStructure` when no
/// signature names its issuer.
pub fn issuer_from_parsed(parsed: Option<Option<Vec<u8>>>) -> (r: Result<Vec<u8>, PasteError>)
    ensures
        match parsed_view(parsed) {
            None => r matches Err(e) && e == PasteError::InvalidCert,
            Some(None) => r matches Err(e) && e == PasteError::InvalidMessageStructure,
            Some(Some(fp)) => r matches Ok(v) && v@ == fp,
        },
{
    match parsed {
        None => Err(PasteError::InvalidCert),
        Some(None) => Err(PasteError::InvalidMessageStructure),
        Some(Some(fp)) => Ok(fp),
    }
}

/// The fingerprint of the key that signed a message.
pub fn issuer_fingerprint(message: &[u8]) -> (r: Result<Vec<u8>, PasteError>)
    ensures
        match message_issuer(message@) {
            None => r matches Err(e) && e == PasteError::InvalidCert,
            Some(None) => r matches Err(e) && e == PasteError::InvalidMessageStructure,
            Some(Some(fp)) => r matches Ok(v) && v@ == fp,
        },
{
    issuer_from_parsed(read_issuer(message))
}

/// Whether bytes are a well-formed OpenPGP message: `InvalidCert` otherwise.
pub fn check_message(message: &[u8]) -> (r: Result<(), PasteError>)
    ensures
        r is Ok <==> message_issuer(message@) is Some,
        r matches Err(e) ==> e == PasteError::InvalidCert,
{
    match read_issuer(message) {
        None => Err(PasteError::InvalidCert),
        Some(_) => Ok(()),
    }
}

/// The first steps of creating a paste: find the fingerprint of the key that
/// signed the message, and look it up in the key cache. A `Lookup::Discover`
/// asks the caller to query the key-discovery service and hand the answer to
/// `KeyCache::record_discovery`.
pub fn signer_lookup(cache: &KeyCache, message: &[u8]) -> (r: Result<(Vec<u8>, Lookup), PasteError>)
    requires
        cache.wf(),
    ensures
        match message_issuer(message@) {
            None => r matches Err(e) && e == PasteError::InvalidCert,
            Some(None) => r matches Err(e) && e == PasteError::InvalidMessageStructure,
            Some(Some(fp)) => r matches Ok(found) && found.0@ == fp && match first_index_of(
                fingerprints(cache@),
                fp,
            ) {
                Some(i) => found.1 matches Lookup::Cached(k) && k@ == cache@[i],
                None => found.1 is Discover,
            },
        },
{
    let fingerprint = match issuer_fingerprint(message) {
        Ok(fp) => fp,
        Err(e) => return Err(e),
    };
    let found = cache.lookup(fingerprint.as_slice());
    Ok((fingerprint, found))
}

} // verus!
