//! The ISO-8859-1 (Latin-1) text codec of ID3v2 text frames, restricted to
//! the printable part of the character set.
use vstd::prelude::*;
use crate::text::push_char;

verus! {

/// A byte that stands for a printable Latin-1 character.
pub open spec fn is_printable_byte(b: u8) -> bool {
    (0x20 <= b && b <= 0x7E) || 0xA0 <= b
}

/// A character that Latin-1 holds in one printable byte.
pub open spec fn is_printable_char(c: char) -> bool {
    (0x20 <= c as u32 && c as u32 <= 0x7E) || (0xA0 <= c as u32 && c as u32 <= 0xFF)
}

/// The character that a byte stands for in Latin-1: its code point.
pub open spec fn latin1_char(b: u8) -> char {
    b as char
}

/// The text of a buffer, when every byte in it is printable.
pub open spec fn latin1_decode(b: Seq<u8>) -> Option<Seq<char>> {
    if forall|i: int| 0 <= i < b.len() ==> is_printable_byte(#[trigger] b[i]) {
        Some(b.map_values(|x: u8| latin1_char(x)))
    } else {
        None
    }
}

/// The bytes of a text, when every character in it is printable Latin-1.
pub open spec fn latin1_encode(s: Seq<char>) -> Option<Seq<u8>> {
    if forall|i: int| 0 <= i < s.len() ==> is_printable_char(#[trigger] s[i]) {
        Some(s.map_values(|c: char| c as u8))
    } else {
        None
    }
}

/// Whether a buffer holds only the null byte and printable characters.
pub open spec fn is_latin1_buffer(b: Seq<u8>) -> bool {
    forall|i: int| 0 <= i < b.len() ==> #[trigger] b[i] == 0 || is_printable_byte(b[i])
}

fn encode_char(c: char) -> (r: Option<u8>)
    ensures
        r == (if is_printable_char(c) { Some(c as u8) } else { None::<u8> }),
{
    let code = c as u32;
    if code < 0x20 {
        None
    } else if code < 0x7F {
        Some(c as u8)
    } else if code < 0xA0 {
        None
    } else if code <= 0xFF {
        Some(c as u8)
    } else {
        None
    }
}

fn decode_char(b: u8) -> (r: Option<char>)
    ensures
        r == (if is_printable_byte(b) { Some(latin1_char(b)) } else { None::<char> }),
{
    if (0x20 <= b && b <= 0x7E) || 0xA0 <= b {
        Some(b as char)
    } else {
        None
    }
}

pub fn is_valid_latin1_string(buffer: &[u8]) -> (r: bool)
    ensures
        r == is_latin1_buffer(buffer@),
{
    let mut i: usize = 0;
    while i < buffer.len()
        invariant
            i <= buffer@.len(),
            forall|j: int| 0 <= j < i ==> #[trigger] buffer@[j] == 0 || is_printable_byte(buffer@[j]),
        decreases buffer@.len() - i,
    {
        let b = buffer[i];
        if b != 0 && decode_char(b).is_none() {
            return false;
        }
        i = i + 1;
    }
    true
}

pub fn can_be_converted_to_latin1_string(s: &str) -> (r: bool)
    ensures
        r == (latin1_encode(s@) is Some),
{
    encode(s).is_some()
}

pub fn encode(string: &str) -> (r: Option<Vec<u8>>)
    ensures
        r matches Some(v) ==> latin1_encode(string@) == Some(v@),
        r is None ==> latin1_encode(string@) is None,
{
    let mut vector: Vec<u8> = Vec::new();
    for c in it: string.chars()
        invariant
            it.seq() == string@,
            vector@.len() == it.index(),
            forall|j: int| 0 <= j < it.index() ==> is_printable_char(#[trigger] string@[j]),
            forall|j: int| 0 <= j < it.index() ==> #[trigger] vector@[j] == string@[j] as u8,
    {
        match encode_char(c) {
            Some(b) => vector.push(b),
            None => return None,
        }
    }
    assert(vector@ =~= string@.map_values(|c: char| c as u8));
    Some(vector)
}

pub fn decode(buffer: &[u8]) -> (r: Option<String>)
    ensures
        r matches Some(s) ==> latin1_decode(buffer@) == Some(s@),
        r is None ==> latin1_decode(buffer@) is None,
{
    let mut string = String::new();
    let mut i: usize = 0;
    while i < buffer.len()
        invariant
            i <= buffer@.len(),
            string@.len() == i,
            forall|j: int| 0 <= j < i ==> is_printable_byte(#[trigger] buffer@[j]),
            forall|j: int| 0 <= j < i ==> #[trigger] string@[j] == latin1_char(buffer@[j]),
        decreases buffer@.len() - i,
    {
        match decode_char(buffer[i]) {
            Some(c) => push_char(&mut string, c),
            None => return None,
        }
        i = i + 1;
    }
    assert(string@ =~= buffer@.map_values(|x: u8| latin1_char(x)));
    Some(string)
}

/// Every buffer of printable Latin-1 bytes decodes, and encoding the text
/// gives the same bytes back; a buffer that holds a control byte other than
/// the null byte is not valid Latin-1.
pub proof fn lemma_latin1_round_trip(b: Seq<u8>)
    ensures
        (forall|i: int| 0 <= i < b.len() ==> is_printable_byte(#[trigger] b[i])) ==> {
            &&& latin1_decode(b) is Some
            &&& latin1_encode(latin1_decode(b)->0) == Some(b)
        },
        (exists|i: int|
            0 <= i < b.len() && #[trigger] b[i] != 0 && !is_printable_byte(b[i]))
            ==> !is_latin1_buffer(b),
{
    if forall|i: int| 0 <= i < b.len() ==> is_printable_byte(#[trigger] b[i]) {
        let s = b.map_values(|x: u8| latin1_char(x));
        assert forall|i: int| 0 <= i < s.len() implies is_printable_char(#[trigger] s[i]) by {
            assert(is_printable_byte(b[i]));
        }
        assert(s.map_values(|c: char| c as u8) =~= b);
    }
}

} // verus!
