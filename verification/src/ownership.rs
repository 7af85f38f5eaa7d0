//! Strings that change hands.

use crate::text::byte_len;
use vstd::prelude::*;
use vstd::string::*;

verus! {

/// A new string that reads "yours".
pub fn gives_ownership() -> (s: String)
    ensures
        s@ == "yours"@,
{
    String::from_str("yours")
}

/// Gives back the string it was given.
pub fn takes_and_gives_back(a_string: String) -> (s: String)
    ensures
        s == a_string,
{
    a_string
}

/// Gives back the string it was given, together with its length in bytes.
pub fn calculate_length(s: String) -> (r: (String, usize))
    ensures
        r.0 == s,
        r.1 == byte_len(s@),
{
    let length: usize = s.as_str().as_bytes().len();
    (s, length)
}

} // verus!
