//! The first word of a text, found byte by byte.
use vstd::prelude::*;
use vstd::string::*;
use vstd::utf8::{
    decode_utf8, decode_utf8_split, encode_utf8, encode_utf8_decode_utf8, encode_utf8_valid_utf8,
    is_char_boundary_iff_not_is_continuation_byte, is_char_boundary_start_end_of_seq,
    is_continuation_byte,
};

verus! {

/// The byte that separates words: a space.
pub const SPACE: u8 = 32;

/// Whether the first word of `bytes` ends before position `index`: no space
/// stands before `index`, and `index` is the place of a space or the end of
/// the text.
pub open spec fn word_end(bytes: Seq<u8>, index: int) -> bool {
    &&& 0 <= index <= bytes.len()
    &&& forall|k: int| 0 <= k < index ==> bytes[k] != SPACE
    &&& index < bytes.len() ==> bytes[index] == SPACE
}

/// The position at which the first word of a sequence of bytes ends.
fn end_of_first_word(bytes: &[u8]) -> (end: usize)
    ensures
        word_end(bytes@, end as int),
{
    let mut i: usize = 0;
    while i < bytes.len()
        invariant
            i <= bytes@.len(),
            forall|k: int| 0 <= k < i ==> bytes@[k] != SPACE,
        decreases bytes@.len() - i,
    {
        if bytes[i] == SPACE {
            return i;
        }
        i = i + 1;
    }
    i
}

/// The number of bytes of the first word of `str`: the position of the first
/// space, or the length of `str` if it holds no space.
pub fn first_word_old(str: &String) -> (end: usize)
    ensures
        word_end(encode_utf8(str@), end as int),
{
    end_of_first_word(str.as_str().as_bytes())
}

/// The first word of `str`: what stands before the first space, or all of
/// `str` if it holds no space.
pub fn first_word(str: &String) -> (word: &str)
    ensures
        word_end(encode_utf8(str@), encode_utf8(word@).len() as int),
        encode_utf8(word@) == encode_utf8(str@).subrange(0, encode_utf8(word@).len() as int),
        word@ == str@.subrange(0, word@.len() as int),
{
    first_word_better(str.as_str())
}

/// The first word of a string slice: what stands before the first space, or
/// the whole slice if it holds no space.
pub fn first_word_better(str: &str) -> (word: &str)
    ensures
        word_end(encode_utf8(str@), encode_utf8(word@).len() as int),
        encode_utf8(word@) == encode_utf8(str@).subrange(0, encode_utf8(word@).len() as int),
        word@ == str@.subrange(0, word@.len() as int),
{
    let end = end_of_first_word(str.as_bytes());
    let ghost bytes = encode_utf8(str@);
    proof {
        encode_utf8_valid_utf8(str@);
        if end < bytes.len() {
            assert(!is_continuation_byte(bytes[end as int]));
            is_char_boundary_iff_not_is_continuation_byte(bytes, end as int);
        } else {
            is_char_boundary_start_end_of_seq(bytes);
        }
    }
    let (word, rest) = str.split_at(end);
    proof {
        assert(encode_utf8(word@) =~= bytes.subrange(0, end as int));
        decode_utf8_split(bytes, end as int);
        encode_utf8_decode_utf8(str@);
        encode_utf8_decode_utf8(word@);
        assert(str@ =~= word@ + decode_utf8(bytes.subrange(end as int, bytes.len() as int)));
        assert(word@ =~= str@.subrange(0, word@.len() as int));
    }
    word
}

} // verus!
