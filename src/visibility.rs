//! Paste visibility and the cryptographic operation that each level asks for.

use crate::bytes::str_eq;
use vstd::prelude::*;

verus! {

/// The visibility of a paste.
#[derive(Clone, Copy, Debug, PartialEq, Eq, Structural)]
pub enum Visibility {
    /// The paste is encrypted to one recipient and only that recipient can read it.
    Private,
    /// The paste is protected by a password.
    Protected,
    /// The paste is signed and can be read by anyone.
    Public,
}

/// The lowercase name under which a visibility is written and stored.
pub open spec fn visibility_name(v: Visibility) -> Seq<char> {
    match v {
        Visibility::Private => "private"@,
        Visibility::Protected => "protected"@,
        Visibility::Public => "public"@,
    }
}

/// The message a sender builds for a paste of some visibility.
#[derive(Clone, Copy, Debug, PartialEq, Eq, Structural)]
pub enum Operation {
    /// Sign the literal data only.
    Sign,
    /// Sign, then encrypt under a password.
    SignAndProtect,
    /// Sign, then encrypt to a recipient's certificate.
    SignAndEncrypt,
}

/// The operation each visibility asks of a sender.
pub open spec fn operation_of(v: Visibility) -> Operation {
    match v {
        Visibility::Public => Operation::Sign,
        Visibility::Protected => Operation::SignAndProtect,
        Visibility::Private => Operation::SignAndEncrypt,
    }
}

impl Visibility {
    /// The name under which this visibility is written and stored.
    pub fn as_str(&self) -> (r: &'static str)
        ensures
            r@ == visibility_name(*self),
    {
        match self {
            Visibility::Private => "private",
            Visibility::Protected => "protected",
            Visibility::Public => "public",
        }
    }

    /// The visibility written under the given name, if any.
    pub fn from_name(name: &str) -> (r: Option<Visibility>)
        ensures
            r matches Some(v) ==> visibility_name(v) == name@,
            r is None ==> forall|v: Visibility| visibility_name(v) != name@,
    {
        if str_eq(name, "public") {
            Some(Visibility::Public)
        } else if str_eq(name, "protected") {
            Some(Visibility::Protected)
        } else if str_eq(name, "private") {
            Some(Visibility::Private)
        } else {
            proof {
                assert forall|v: Visibility| visibility_name(v) != name@ by {
                    match v {
                        Visibility::Private => {},
                        Visibility::Protected => {},
                        Visibility::Public => {},
                    }
                }
            }
            None
        }
    }

    /// Whether a reader must decrypt the paste, rather than only verify it.
    pub fn is_encrypted(&self) -> (r: bool)
        ensures
            r == !(*self is Public),
    {
        match self {
            Visibility::Public => false,
            _ => true,
        }
    }

    /// The operation a sender applies to a paste of this visibility.
    pub fn operation(&self) -> (r: Operation)
        ensures
            r == operation_of(*self),
    {
        match self {
            Visibility::Public => Operation::Sign,
            Visibility::Protected => Operation::SignAndProtect,
            Visibility::Private => Operation::SignAndEncrypt,
        }
    }
}

/// Reads a visibility given on the command line.
pub fn to_api_visibility(visibility: &str) -> (r: Result<Visibility, String>)
    ensures
        r matches Ok(v) ==> visibility_name(v) == visibility@,
        r is Err <==> forall|v: Visibility| visibility_name(v) != visibility@,
{
    match Visibility::from_name(visibility) {
        Some(v) => Ok(v),
        None => Err("Available visibilities are `public`, `protected` and `private`".to_owned()),
    }
}

} // verus!
