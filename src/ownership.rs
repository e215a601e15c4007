//! Moving strings into and out of functions.

use vstd::prelude::*;
use vstd::string::StringExecFns;
use crate::text::byte_len;

verus! {

/// A new string `hello`, handed to the caller.
pub fn gives_ownership() -> (r: String)
    ensures
        r@ == "hello"@,
{
    String::from_str("hello")
}

/// Takes a string and hands it back.
pub fn takes_and_gives_back(a_string: String) -> (r: String)
    ensures
        r == a_string,
{
    a_string
}

/// Takes a string and hands it back with its length in bytes.
pub fn calculate_length(s: String) -> (r: (String, usize))
    ensures
        r.0 == s,
        r.1 == byte_len(s@),
{
    let length = s.as_str().len();
    (s, length)
}

} // verus!
