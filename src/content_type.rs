//! Content-type checks for request bodies: MessagePack payloads and
//! detached-signature OpenPGP messages.

use crate::bytes::str_eq;
use vstd::prelude::*;

verus! {

/// A parsed media type: its type, its subtype and its `+suffix`, if any.
pub type MediaParts = (Seq<char>, Seq<char>, Option<Seq<char>>);

/// What the `mime` crate parses a content type into.
pub uninterp spec fn media_type_of(s: Seq<char>) -> Option<MediaParts>;

/// The view of an optional string.
pub open spec fn opt_view(o: Option<String>) -> Option<Seq<char>> {
    match o {
        Some(x) => Some(x@),
        None => None,
    }
}

/// Relies on `str::parse::<mime::Mime>` to read a content type, and on
/// `Mime::type_`, `Mime::subtype` and `Mime::suffix` to take it apart.
#[verifier::external_body]
fn parse_media_type(s: &str) -> (r: Option<(String, String, Option<String>)>)
    ensures
        r matches Some(t) ==> media_type_of(s@) == Some((t.0@, t.1@, opt_view(t.2))),
        r is None ==> media_type_of(s@) is None,
{
    s.parse::<mime::Mime>().ok().map(
        |m| (m.type_().as_str().to_owned(), m.subtype().as_str().to_owned(), m.suffix().map(|x| x.as_str().to_owned())),
    )
}

/// `application/msgpack`, or any `application/...+msgpack`.
pub open spec fn is_msgpack(t: MediaParts) -> bool {
    t.0 == "application"@ && (t.1 == "msgpack"@ || t.2 == Some("msgpack"@))
}

/// `application/pgp-signature`.
pub open spec fn is_pgp_signature(t: MediaParts) -> bool {
    t.0 == "application"@ && t.1 == "pgp-signature"@
}

/// Whether the parts of a parsed media type name MessagePack.
pub fn is_msgpack_media(type_: &str, subtype: &str, suffix: Option<&str>) -> (r: bool)
    ensures
        r == is_msgpack((type_@, subtype@, match suffix {
            Some(x) => Some(x@),
            None => None,
        })),
{
    str_eq(type_, "application") && (str_eq(subtype, "msgpack") || match suffix {
        Some(x) => str_eq(x, "msgpack"),
        None => false,
    })
}

/// Whether the parts of a parsed media type name an OpenPGP signed message.
pub fn is_pgp_signature_media(type_: &str, subtype: &str) -> (r: bool)
    ensures
        r == is_pgp_signature((type_@, subtype@, None)),
{
    str_eq(type_, "application") && str_eq(subtype, "pgp-signature")
}

/// Whether a request's content type announces MessagePack. `None` stands for a
/// missing header, or one that is not visible ASCII.
pub fn has_msgpack_content_type(content_type: Option<&str>) -> (r: bool)
    ensures
        r == (match content_type {
            Some(s) => match media_type_of(s@) {
                Some(t) => is_msgpack(t),
                None => false,
            },
            None => false,
        }),
{
    match content_type {
        Some(s) => match parse_media_type(s) {
            Some(t) => {
                let suffix = match &t.2 {
                    Some(x) => Some(x.as_str()),
                    None => None,
                };
                is_msgpack_media(t.0.as_str(), t.1.as_str(), suffix)
            },
            None => false,
        },
        None => false,
    }
}

/// Whether a request's content type announces an OpenPGP signed message.
/// `None` stands for a missing header, or one that is not visible ASCII.
pub fn has_pgp_signature_content_type(content_type: Option<&str>) -> (r: bool)
    ensures
        r == (match content_type {
            Some(s) => match media_type_of(s@) {
                Some(t) => is_pgp_signature(t),
                None => false,
            },
            None => false,
        }),
{
    match content_type {
        Some(s) => match parse_media_type(s) {
            Some(t) => is_pgp_signature_media(t.0.as_str(), t.1.as_str()),
            None => false,
        },
        None => false,
    }
}

/// A MessagePack body, taken from a request or given as a response.
pub struct MsgPack<T>(pub T);

} // verus!
