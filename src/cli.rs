//! Defaults and value readers of the command-line client.

use vstd::prelude::*;

verus! {

/// The public instance that the client talks to unless told otherwise.
pub fn default_server() -> (r: String)
    ensures
        r@ == "https://pgpaste.org"@,
{
    "https://pgpaste.org".to_owned()
}

/// Reads a burn date given on the command line. Burn dates are not supported:
/// every value is refused, and a lifetime must be given instead.
pub fn to_do<T>(_duration: &str) -> (r: Result<T, String>)
    ensures
        r is Err,
{
    Err("burn dates are not supported, give a lifetime instead".to_owned())
}

} // verus!
