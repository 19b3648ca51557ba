//! Integer codecs used by the ID3v2 wire format: syncsafe integers (seven
//! usable bits per byte) and plain big-endian 32-bit integers.
use vstd::prelude::*;

verus! {

/// The value of a syncsafe integer: each byte gives its low seven bits.
pub open spec fn syncsafe_value(b: Seq<u8>) -> int {
    (b[0] % 128) * 0x20_0000 + (b[1] % 128) * 0x4000 + (b[2] % 128) * 0x80 + (b[3] % 128)
}

/// The four bytes of the syncsafe form of `n`; bits above the 28th are dropped.
pub open spec fn syncsafe_bytes(n: u32) -> Seq<u8> {
    seq![
        ((n / 0x20_0000) % 128) as u8,
        ((n / 0x4000) % 128) as u8,
        ((n / 0x80) % 128) as u8,
        (n % 128) as u8,
    ]
}

/// The value of four bytes read as a big-endian integer.
pub open spec fn be_value(b: Seq<u8>) -> int {
    b[0] * 0x100_0000 + b[1] * 0x1_0000 + b[2] * 0x100 + b[3]
}

/// The four bytes of the big-endian form of `n`.
pub open spec fn be_bytes(n: u32) -> Seq<u8> {
    seq![
        (n / 0x100_0000) as u8,
        ((n / 0x1_0000) % 256) as u8,
        ((n / 0x100) % 256) as u8,
        (n % 256) as u8,
    ]
}

/// Whether every byte has its most significant bit cleared.
pub open spec fn is_syncsafe(b: Seq<u8>) -> bool {
    forall|i: int| 0 <= i < b.len() ==> #[trigger] b[i] < 128
}

/// Whether bit `index` (0 is the least significant) of `byte` is set.
pub open spec fn bit_is_set(byte: u8, index: u8) -> bool {
    (byte >> index) & 1 == 1
}

pub fn check_bit(byte: u8, bit_index: u8) -> (r: bool)
    requires
        bit_index < 8,
    ensures
        r == bit_is_set(byte, bit_index),
{
    (byte >> bit_index) & 1 == 1
}

/// Reads a syncsafe integer: a 28-bit value held as seven bits in each of
/// four bytes, most significant first.
pub fn read_syncsafe_integer(bytes: &[u8; 4]) -> (r: u32)
    ensures
        r == syncsafe_value(bytes@),
{
    (bytes[0] % 128) as u32 * 0x20_0000 + (bytes[1] % 128) as u32 * 0x4000 + (bytes[2] % 128) as u32
        * 0x80 + (bytes[3] % 128) as u32
}

pub fn read_be_integer(bytes: &[u8; 4]) -> (r: u32)
    ensures
        r == be_value(bytes@),
{
    bytes[0] as u32 * 0x100_0000 + bytes[1] as u32 * 0x1_0000 + bytes[2] as u32 * 0x100
        + bytes[3] as u32
}

/// Writes the low 28 bits of `number` as a syncsafe integer.
pub fn write_syncsafe_integer(number: u32) -> (r: [u8; 4])
    ensures
        r@ == syncsafe_bytes(number),
        number < 0x1000_0000 ==> syncsafe_value(r@) == number,
        is_syncsafe(r@),
{
    let r = [
        ((number / 0x20_0000) % 128) as u8,
        ((number / 0x4000) % 128) as u8,
        ((number / 0x80) % 128) as u8,
        (number % 128) as u8,
    ];
    assert(r@ =~= syncsafe_bytes(number));
    proof {
        lemma_syncsafe_round_trip(number);
    }
    r
}

pub fn write_be_integer(number: u32) -> (r: [u8; 4])
    ensures
        r@ == be_bytes(number),
        be_value(r@) == number,
{
    let r = [
        (number / 0x100_0000) as u8,
        ((number / 0x1_0000) % 256) as u8,
        ((number / 0x100) % 256) as u8,
        (number % 256) as u8,
    ];
    assert(r@ =~= be_bytes(number));
    proof {
        lemma_be_round_trip(number);
    }
    r
}

pub fn is_valid_syncsafe_integer(bytes: &[u8; 4]) -> (r: bool)
    ensures
        r == is_syncsafe(bytes@),
{
    let (b0, b1, b2, b3) = (bytes[0], bytes[1], bytes[2], bytes[3]);
    let r = (b0 | b1 | b2 | b3) >> 7 == 0;
    assert(r == (b0 < 128 && b1 < 128 && b2 < 128 && b3 < 128)) by (bit_vector)
        requires
            r == ((b0 | b1 | b2 | b3) >> 7 == 0),
    ;
    assert(bytes@.len() == 4);
    r
}

/// Decoding the syncsafe form of a value below 2^28 gives the value back,
/// and that form always has the most significant bit of every byte cleared.
pub proof fn lemma_syncsafe_round_trip(n: u32)
    ensures
        n < 0x1000_0000 ==> syncsafe_value(syncsafe_bytes(n)) == n,
        is_syncsafe(syncsafe_bytes(n)),
{
    let b = syncsafe_bytes(n);
    assert(n < 0x1000_0000 ==> ((n / 0x20_0000) % 128) * 0x20_0000 + ((n / 0x4000) % 128) * 0x4000
        + ((n / 0x80) % 128) * 0x80 + (n % 128) == n) by (bit_vector);
    assert forall|i: int| 0 <= i < b.len() implies #[trigger] b[i] < 128 by {}
}

/// Decoding the big-endian form of any value gives the value back.
pub proof fn lemma_be_round_trip(n: u32)
    ensures
        be_value(be_bytes(n)) == n,
{
    assert((n / 0x100_0000) * 0x100_0000 + ((n / 0x1_0000) % 256) * 0x1_0000 + ((n / 0x100)
        % 256) * 0x100 + (n % 256) == n) by (bit_vector);
}

/// Every four bytes with the most significant bit of each byte cleared form a
/// valid syncsafe integer, and encoding its value gives the same bytes back.
pub proof fn lemma_syncsafe_bytes_round_trip(b: Seq<u8>)
    requires
        b.len() == 4,
        is_syncsafe(b),
    ensures
        0 <= syncsafe_value(b) < 0x1000_0000,
        syncsafe_bytes(syncsafe_value(b) as u32) == b,
{
    let (b0, b1, b2, b3) = (b[0], b[1], b[2], b[3]);
    let v = syncsafe_value(b);
    assert(b0 < 128 && b1 < 128 && b2 < 128 && b3 < 128);
    assert(b0 < 128 && b1 < 128 && b2 < 128 && b3 < 128 ==> {
        let n = (b0 as u32) * 0x20_0000 + (b1 as u32) * 0x4000 + (b2 as u32) * 0x80 + b3 as u32;
        &&& n < 0x1000_0000
        &&& ((n / 0x20_0000) % 128) as u8 == b0
        &&& ((n / 0x4000) % 128) as u8 == b1
        &&& ((n / 0x80) % 128) as u8 == b2
        &&& (n % 128) as u8 == b3
    }) by (bit_vector);
    assert(syncsafe_bytes(v as u32) =~= b);
}

/// Every four bytes are the big-endian form of their value.
pub proof fn lemma_be_bytes_round_trip(b: Seq<u8>)
    requires
        b.len() == 4,
    ensures
        0 <= be_value(b) <= u32::MAX,
        be_bytes(be_value(b) as u32) == b,
{
    let (b0, b1, b2, b3) = (b[0], b[1], b[2], b[3]);
    assert({
        let n = (b0 as u32) * 0x100_0000 + (b1 as u32) * 0x1_0000 + (b2 as u32) * 0x100 + b3 as u32;
        &&& (b0 as int) * 0x100_0000 + (b1 as int) * 0x1_0000 + (b2 as int) * 0x100 + b3 as int
            <= u32::MAX
        &&& (n / 0x100_0000) as u8 == b0
        &&& ((n / 0x1_0000) % 256) as u8 == b1
        &&& ((n / 0x100) % 256) as u8 == b2
        &&& (n % 256) as u8 == b3
    }) by (bit_vector);
    assert(be_bytes(be_value(b) as u32) =~= b);
}

} // verus!
