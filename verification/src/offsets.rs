//! Byte offsets into the UTF-8 encoding of a text, and the character indices
//! they correspond to.
//!
//! Search engines report positions as byte offsets; the rest of this crate
//! counts characters. This module converts between the two and refuses an
//! offset that falls inside a character.

use vstd::prelude::*;

verus! {

/// The number of bytes that `c` takes in UTF-8.
pub open spec fn utf8_width(c: char) -> int {
    let u = c as u32;
    if u < 0x80 {
        1
    } else if u < 0x800 {
        2
    } else if u < 0x10000 {
        3
    } else {
        4
    }
}

/// The byte offset at which character `index` of `s` starts in the UTF-8
/// encoding of `s`; for `index == s.len()`, the length of that encoding.
pub open spec fn byte_offset(s: Seq<char>, index: int) -> int
    decreases index,
{
    if index <= 0 || index > s.len() {
        0
    } else {
        byte_offset(s, index - 1) + utf8_width(s[index - 1])
    }
}

/// Whether a character of `s` starts at byte offset `byte`, or `s` ends there.
pub open spec fn is_boundary(s: Seq<char>, byte: int) -> bool {
    exists|index: int| 0 <= index <= s.len() && byte_offset(s, index) == byte
}

/// The character index that byte offset `byte` corresponds to, if it is a
/// boundary of `s`.
pub open spec fn char_index(s: Seq<char>, byte: int) -> Option<int> {
    if is_boundary(s, byte) {
        Some(choose|index: int| 0 <= index <= s.len() && byte_offset(s, index) == byte)
    } else {
        None
    }
}

/// The width that [`utf8_width`] gives is the length of the character's
/// UTF-8 encoding.
pub proof fn lemma_width_is_encoded_length(c: char)
    ensures
        utf8_width(c) == vstd::utf8::encode_scalar(c as u32).len(),
{
    vstd::utf8::char_is_scalar(c);
}

/// The byte offset of character `index` is the length of the UTF-8 encoding
/// of the characters before it.
pub proof fn lemma_byte_offset_is_encoded_length(s: Seq<char>, index: int)
    requires
        0 <= index <= s.len(),
    ensures
        byte_offset(s, index) == vstd::utf8::encode_utf8(s.take(index)).len(),
    decreases s.len(),
{
    if index > 0 {
        let rest = s.drop_first();
        lemma_byte_offset_shifts(s, index - 1);
        lemma_byte_offset_is_encoded_length(rest, index - 1);
        lemma_width_is_encoded_length(s[0]);
        assert(s.take(index).drop_first() == rest.take(index - 1));
    }
}

/// The offsets of a text are those of the text without its first character,
/// shifted by the width of that character.
proof fn lemma_byte_offset_shifts(s: Seq<char>, index: int)
    requires
        0 <= index < s.len(),
    ensures
        byte_offset(s, index + 1) == utf8_width(s[0]) + byte_offset(s.drop_first(), index),
    decreases index,
{
    let rest = s.drop_first();
    if index > 0 {
        lemma_byte_offset_shifts(s, index - 1);
    } else {
    }
    assert(byte_offset(s, index + 1) == byte_offset(s, index) + utf8_width(s[index]));
}

/// Byte offsets grow strictly with the character index.
pub proof fn lemma_byte_offset_increases(s: Seq<char>, i: int, j: int)
    requires
        0 <= i < j <= s.len(),
    ensures
        byte_offset(s, i) < byte_offset(s, j),
        0 <= byte_offset(s, i),
    decreases j,
{
    if i > 0 {
        lemma_byte_offset_increases(s, 0, i);
    }
    if i + 1 < j {
        lemma_byte_offset_increases(s, i, j - 1);
    }
}

/// A byte offset determines its character index: [`char_index`] returns
/// `index` for the offset of `index`.
pub proof fn lemma_char_index_of_offset(s: Seq<char>, index: int)
    requires
        0 <= index <= s.len(),
    ensures
        char_index(s, byte_offset(s, index)) == Some(index),
{
    let byte = byte_offset(s, index);
    let chosen = choose|k: int| 0 <= k <= s.len() && byte_offset(s, k) == byte;
    if chosen < index {
        lemma_byte_offset_increases(s, chosen, index);
    } else if index < chosen {
        lemma_byte_offset_increases(s, index, chosen);
    }
}

/// Computes [`utf8_width`].
pub fn char_width(c: char) -> (width: usize)
    ensures
        width == utf8_width(c),
{
    let u: u32 = c as u32;
    if u < 0x80 {
        1
    } else if u < 0x800 {
        2
    } else if u < 0x10000 {
        3
    } else {
        4
    }
}

/// Computes [`char_index`]: the index of the character that starts at byte
/// offset `byte`, or nothing when `byte` lies inside a character or beyond
/// the text.
pub fn char_index_of(chars: &Vec<char>, byte: usize) -> (found: Option<usize>)
    ensures
        found is Some == char_index(chars@, byte as int) is Some,
        found matches Some(index) ==> char_index(chars@, byte as int) == Some(index as int)
            && index <= chars.len(),
{
    let mut index: usize = 0;
    let mut offset: usize = 0;
    while index < chars.len() && offset < byte
        invariant
            index <= chars.len(),
            offset <= byte,
            offset == byte_offset(chars@, index as int),
        decreases chars.len() - index,
    {
        let width = char_width(chars[index]);
        if width > byte - offset {
            proof {
                lemma_no_boundary_between(chars@, index as int, byte as int);
            }
            return None;
        }
        offset += width;
        index += 1;
    }
    if offset == byte {
        proof {
            lemma_char_index_of_offset(chars@, index as int);
        }
        Some(index)
    } else {
        proof {
            lemma_no_boundary_beyond(chars@, byte as int);
        }
        None
    }
}

/// No boundary lies strictly between the offsets of two neighbouring
/// characters.
proof fn lemma_no_boundary_between(s: Seq<char>, index: int, byte: int)
    requires
        0 <= index < s.len(),
        byte_offset(s, index) < byte < byte_offset(s, index + 1),
    ensures
        !is_boundary(s, byte),
{
    assert forall|k: int| 0 <= k <= s.len() implies byte_offset(s, k) != byte by {
        if k < index {
            lemma_byte_offset_increases(s, k, index);
        } else if k > index + 1 {
            lemma_byte_offset_increases(s, index + 1, k);
        }
    }
}

/// No boundary lies beyond the end of the encoding.
proof fn lemma_no_boundary_beyond(s: Seq<char>, byte: int)
    requires
        byte_offset(s, s.len() as int) < byte,
    ensures
        !is_boundary(s, byte),
{
    assert forall|k: int| 0 <= k <= s.len() implies byte_offset(s, k) != byte by {
        if k < s.len() {
            lemma_byte_offset_increases(s, k, s.len() as int);
        }
    }
}

} // verus!
