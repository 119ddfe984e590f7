//! Values that move into functions and out of them again.
use vstd::prelude::*;
use vstd::string::*;
use vstd::utf8::encode_utf8;

verus! {

/// Hands out a new string that reads `hello`.
pub fn gives_ownership() -> (str: String)
    ensures
        str@ == "hello"@,
{
    let str = String::from_str("hello");
    str
}

/// Takes a string and hands the very same string back.
pub fn takes_and_gives_ownership(str: String) -> (same: String)
    ensures
        same == str,
{
    str
}

/// Hands `str` back together with its length in bytes.
pub fn calculate_length(str: String) -> (measured: (String, usize))
    ensures
        measured.0 == str,
        measured.1 == encode_utf8(str@).len(),
{
    let len = str.as_str().as_bytes().len();
    (str, len)
}

} // verus!
