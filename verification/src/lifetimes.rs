//! References that outlive the function that hands them out.
use vstd::prelude::*;
use vstd::string::*;
use vstd::utf8::encode_utf8;

verus! {

/// The longer of two texts, measured in bytes; the second if neither is
/// longer.
pub fn longest<'a>(x: &'a str, y: &'a str) -> (longer: &'a str)
    ensures
        longer@ == if encode_utf8(x@).len() > encode_utf8(y@).len() {
            x@
        } else {
            y@
        },
{
    if x.as_bytes().len() > y.as_bytes().len() {
        x
    } else {
        y
    }
}

/// A passage quoted from a longer text, which it borrows.
pub struct ImportantExcerpt<'a> {
    pub part: &'a str,
}

impl<'a> ImportantExcerpt<'a> {
    /// The excerpt that consists of `part`.
    pub fn new(part: &'a str) -> (excerpt: ImportantExcerpt<'a>)
        ensures
            excerpt.part@ == part@,
    {
        ImportantExcerpt { part: part }
    }
}

} // verus!
