//! How the command-line client reads the server's answers.

use crate::bytes::str_eq;
use vstd::prelude::*;

verus! {

/// What the client makes of the server's answer to a create request.
#[derive(Clone, Copy, Debug, PartialEq, Eq, Structural)]
pub enum CreateOutcome {
    /// The paste was created; the body holds its slug and burn time.
    Created,
    /// The slug is taken.
    SlugTaken,
    /// Any other status: an error.
    Unexpected,
}

/// What the client makes of the server's answer to a read request.
#[derive(Clone, Copy, Debug, PartialEq, Eq, Structural)]
pub enum ReadOutcome {
    /// The body holds the paste, as MessagePack.
    Found,
    /// The answer is a success that does not announce MessagePack.
    InvalidContentType,
    /// No such paste.
    NotFound,
    /// Any other status: an error.
    Unexpected,
}

/// The status of an answer to a create request: 201 is success, 409 a taken slug.
pub fn create_outcome(status: u16) -> (r: CreateOutcome)
    ensures
        r == (if status == 201 {
            CreateOutcome::Created
        } else if status == 409 {
            CreateOutcome::SlugTaken
        } else {
            CreateOutcome::Unexpected
        }),
{
    if status == 201 {
        CreateOutcome::Created
    } else if status == 409 {
        CreateOutcome::SlugTaken
    } else {
        CreateOutcome::Unexpected
    }
}

/// The status and content type of an answer to a read request. On 200, a
/// content type that is given must be exactly `application/msgpack`; a
/// missing one is accepted.
pub fn read_outcome(status: u16, content_type: Option<&str>) -> (r: ReadOutcome)
    ensures
        r == (if status == 200 {
            match content_type {
                Some(c) => if c@ == "application/msgpack"@ {
                    ReadOutcome::Found
                } else {
                    ReadOutcome::InvalidContentType
                },
                None => ReadOutcome::Found,
            }
        } else if status == 404 {
            ReadOutcome::NotFound
        } else {
            ReadOutcome::Unexpected
        }),
{
    if status == 200 {
        match content_type {
            Some(c) => if str_eq(c, "application/msgpack") {
                ReadOutcome::Found
            } else {
                ReadOutcome::InvalidContentType
            },
            None => ReadOutcome::Found,
        }
    } else if status == 404 {
        ReadOutcome::NotFound
    } else {
        ReadOutcome::Unexpected
    }
}

} // verus!
