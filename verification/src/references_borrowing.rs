//! Functions that read and change strings through references.
use vstd::prelude::*;
use vstd::std_specs::iter::IteratorSpec;
use vstd::string::*;
use vstd::utf8::encode_utf8;

verus! {

/// The length of `str` in bytes.
pub fn calculate_length(str: &String) -> (length: usize)
    ensures
        length == encode_utf8(str@).len(),
{
    str.as_str().as_bytes().len()
}

/// Appends `1233` to `str`.
pub fn append(str: &mut String)
    ensures
        final(str)@ == old(str)@ + "1233"@,
{
    str.append("1233");
}

/// The two strings in exchanged order.
pub fn swap(x: String, y: String) -> (swapped: (String, String))
    ensures
        swapped.0 == y,
        swapped.1 == x,
{
    let mut x = x;
    let mut y = y;
    let tmp = y;
    y = x;
    x = tmp;
    (x, y)
}

/// Whether `index` is the place of the first `delimiter` in `text`.
pub open spec fn is_first(text: Seq<char>, delimiter: char, index: int) -> bool {
    &&& 0 <= index < text.len()
    &&& text[index] == delimiter
    &&& forall|k: int| 0 <= k < index ==> text[k] != delimiter
}

/// Splits the first token off `str`.
///
/// If `delimiter` occurs in `str`, the token is what stands before its first
/// occurrence, and `str` is left with what stands behind it. If it does not
/// occur, the token is empty and `str` is left as it is.
pub fn strtok<'a>(str: &mut &'a str, delimiter: char) -> (token: &'a str)
    ensures
        old(str)@.contains(delimiter) ==> is_first(old(str)@, delimiter, token@.len() as int)
            && token@ == old(str)@.subrange(0, token@.len() as int) && final(str)@ == old(
            str,
        )@.subrange(token@.len() as int + 1, old(str)@.len() as int),
        !old(str)@.contains(delimiter) ==> token@.len() == 0 && *final(str) == *old(str),
{
    let text: &'a str = *str;
    let length = text.unicode_len();
    let mut chars = text.chars();
    let mut index: usize = 0;
    while index < length
        invariant
            index <= length,
            length == text@.len(),
            text == *old(str),
            *str == *old(str),
            chars.remaining() == text@.subrange(index as int, length as int),
            forall|k: int| 0 <= k < index ==> text@[k] != delimiter,
        decreases length - index,
    {
        let next = chars.next();
        match next {
            Some(c) => {
                assert(c == text@[index as int]);
                if c == delimiter {
                    let token = text.substring_char(0, index);
                    *str = text.substring_char(index + 1, length);
                    assert(text@.contains(delimiter));
                    return token;
                }
                assert(chars.remaining() =~= text@.subrange(index + 1, length as int));
            },
            None => {
                assert(false);
            },
        }
        index = index + 1;
    }
    assert(!text@.contains(delimiter));
    let token = text.substring_char(0, 0);
    token
}

} // verus!
