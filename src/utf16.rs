//! UTF-16 text: characters to code units and back, and code units to bytes
//! in either byte order.
use vstd::prelude::*;
use crate::text::{char_from_u32, push_char};

verus! {

/// The character that stands in for an unpaired surrogate when decoding.
pub const REPLACEMENT_CHARACTER: u32 = 0xFFFD;

pub open spec fn is_high_surrogate(u: u16) -> bool {
    0xD800 <= u && u <= 0xDBFF
}

pub open spec fn is_low_surrogate(u: u16) -> bool {
    0xDC00 <= u && u <= 0xDFFF
}

pub open spec fn is_surrogate(u: u16) -> bool {
    0xD800 <= u && u <= 0xDFFF
}

/// The code units of one character: one below U+10000, else a surrogate pair.
pub open spec fn char_units(c: char) -> Seq<u16> {
    let v = c as u32;
    if v < 0x1_0000 {
        seq![v as u16]
    } else {
        let w = (v - 0x1_0000) as u32;
        seq![(0xD800 + w / 0x400) as u16, (0xDC00 + w % 0x400) as u16]
    }
}

/// The UTF-16 code units of a text.
pub open spec fn utf16_encode(s: Seq<char>) -> Seq<u16>
    decreases s.len(),
{
    if s.len() == 0 {
        seq![]
    } else {
        utf16_encode(s.drop_last()) + char_units(s.last())
    }
}

/// The scalar value that a surrogate pair stands for.
pub open spec fn pair_value(hi: u16, lo: u16) -> u32 {
    (0x1_0000 + (hi - 0xD800) * 0x400 + (lo - 0xDC00)) as u32
}

/// Whether the first two units form a surrogate pair.
pub open spec fn starts_with_pair(u: Seq<u16>) -> bool {
    u.len() >= 2 && is_high_surrogate(u[0]) && is_low_surrogate(u[1])
}

/// The text of a run of code units; an unpaired surrogate reads as U+FFFD.
pub open spec fn utf16_decode(u: Seq<u16>) -> Seq<char>
    decreases u.len(),
{
    if u.len() == 0 {
        seq![]
    } else if starts_with_pair(u) {
        seq![pair_value(u[0], u[1]) as char] + utf16_decode(u.subrange(2, u.len() as int))
    } else if is_surrogate(u[0]) {
        seq![REPLACEMENT_CHARACTER as char] + utf16_decode(u.subrange(1, u.len() as int))
    } else {
        seq![(u[0] as u32) as char] + utf16_decode(u.subrange(1, u.len() as int))
    }
}

/// Whether every surrogate in a run of code units belongs to a pair.
pub open spec fn is_well_formed_utf16(u: Seq<u16>) -> bool
    decreases u.len(),
{
    if u.len() == 0 {
        true
    } else if starts_with_pair(u) {
        is_well_formed_utf16(u.subrange(2, u.len() as int))
    } else if is_surrogate(u[0]) {
        false
    } else {
        is_well_formed_utf16(u.subrange(1, u.len() as int))
    }
}

/// The code unit held by bytes `2k` and `2k + 1`.
pub open spec fn unit_at(b: Seq<u8>, k: int, big_endian: bool) -> u16 {
    if big_endian {
        (b[2 * k] * 256 + b[2 * k + 1]) as u16
    } else {
        (b[2 * k + 1] * 256 + b[2 * k]) as u16
    }
}

/// The code units of a buffer, two bytes each; an odd last byte is ignored.
pub open spec fn units_of_bytes(b: Seq<u8>, big_endian: bool) -> Seq<u16> {
    Seq::new(b.len() / 2, |k: int| unit_at(b, k, big_endian))
}

/// The bytes of a run of code units, two for each.
pub open spec fn bytes_of_units(u: Seq<u16>, big_endian: bool) -> Seq<u8> {
    Seq::new(
        2 * u.len(),
        |i: int|
            if (i % 2 == 0) == big_endian {
                (u[i / 2] / 256) as u8
            } else {
                (u[i / 2] % 256) as u8
            },
    )
}

pub fn encode_utf16(s: &str) -> (r: Vec<u16>)
    ensures
        r@ == utf16_encode(s@),
{
    let mut units: Vec<u16> = Vec::new();
    for c in it: s.chars()
        invariant
            it.seq() == s@,
            units@ == utf16_encode(s@.take(it.index() as int)),
    {
        let ghost i = it.index() as int;
        assert(s@.take(i + 1).drop_last() =~= s@.take(i));
        let v = c as u32;
        if v < 0x1_0000 {
            units.push(v as u16);
        } else {
            let w = v - 0x1_0000;
            units.push((0xD800 + w / 0x400) as u16);
            units.push((0xDC00 + w % 0x400) as u16);
        }
        assert(units@ =~= utf16_encode(s@.take(i + 1)));
    }
    assert(s@.take(s@.len() as int) =~= s@);
    units
}

proof fn lemma_pair_is_scalar(hi: u16, lo: u16)
    requires
        is_high_surrogate(hi),
        is_low_surrogate(lo),
    ensures
        vstd::utf8::is_scalar(pair_value(hi, lo)),
        (pair_value(hi, lo) as char) as u32 == pair_value(hi, lo),
{
}

proof fn lemma_single_is_scalar(u: u16)
    requires
        !is_surrogate(u),
    ensures
        vstd::utf8::is_scalar(u as u32),
        ((u as u32) as char) as u32 == u as u32,
{
}

pub fn decode_utf16(units: &Vec<u16>) -> (r: String)
    ensures
        r@ == utf16_decode(units@),
{
    let mut text = String::new();
    let mut i: usize = 0;
    let n = units.len();
    assert(units@.subrange(0, n as int) =~= units@);
    while i < n
        invariant
            n == units@.len(),
            i <= n,
            text@ + utf16_decode(units@.subrange(i as int, n as int)) == utf16_decode(units@),
        decreases n - i,
    {
        let ghost rest = units@.subrange(i as int, n as int);
        let ghost before = text@;
        let u = units[i];
        if 0xD800 <= u && u <= 0xDBFF && i + 1 < n && 0xDC00 <= units[i + 1] && units[i + 1]
            <= 0xDFFF {
            let lo = units[i + 1];
            let v = 0x1_0000 + (u as u32 - 0xD800) * 0x400 + (lo as u32 - 0xDC00);
            proof {
                lemma_pair_is_scalar(u, lo);
            }
            let c = char_from_u32(v).unwrap();
            proof {
                vstd::utf8::char_u32_cast(c, v);
            }
            assert(rest.subrange(2, rest.len() as int) =~= units@.subrange(i + 2, n as int));
            assert(utf16_decode(rest) == seq![c] + utf16_decode(units@.subrange(i + 2, n as int)));
            push_char(&mut text, c);
            assert(text@ + utf16_decode(units@.subrange(i + 2, n as int)) =~= before
                + utf16_decode(rest));
            i = i + 2;
        } else {
            let c = if 0xD800 <= u && u <= 0xDFFF {
                char_from_u32(REPLACEMENT_CHARACTER).unwrap()
            } else {
                proof {
                    lemma_single_is_scalar(u);
                }
                char_from_u32(u as u32).unwrap()
            };
            proof {
                vstd::utf8::char_u32_cast(c, c as u32);
            }
            assert(rest.subrange(1, rest.len() as int) =~= units@.subrange(i + 1, n as int));
            assert(utf16_decode(rest) == seq![c] + utf16_decode(units@.subrange(i + 1, n as int)));
            push_char(&mut text, c);
            assert(text@ + utf16_decode(units@.subrange(i + 1, n as int)) =~= before
                + utf16_decode(rest));
            i = i + 1;
        }
    }
    assert(units@.subrange(n as int, n as int) =~= Seq::<u16>::empty());
    assert(text@ + Seq::<char>::empty() =~= text@);
    text
}

/// The code units held by `b[start..]`, two bytes each.
pub fn units_from_bytes(b: &[u8], start: usize, big_endian: bool) -> (r: Vec<u16>)
    requires
        start <= b@.len(),
    ensures
        r@ == units_of_bytes(b@.subrange(start as int, b@.len() as int), big_endian),
{
    let ghost tail = b@.subrange(start as int, b@.len() as int);
    let mut units: Vec<u16> = Vec::new();
    let mut pos: usize = start;
    while b.len() - pos >= 2
        invariant
            start <= pos <= b@.len(),
            tail == b@.subrange(start as int, b@.len() as int),
            pos == start + 2 * units@.len(),
            forall|j: int|
                0 <= j < units@.len() ==> #[trigger] units@[j] == unit_at(tail, j, big_endian),
        decreases b@.len() - pos,
    {
        let first = b[pos];
        let second = b[pos + 1];
        let unit = if big_endian {
            first as u16 * 256 + second as u16
        } else {
            second as u16 * 256 + first as u16
        };
        units.push(unit);
        pos = pos + 2;
    }
    assert(units@ =~= units_of_bytes(tail, big_endian));
    units
}

/// Appends the bytes of `units`, two for each, to `out`.
pub fn push_unit_bytes(out: &mut Vec<u8>, units: &Vec<u16>, big_endian: bool)
    ensures
        final(out)@ == old(out)@ + bytes_of_units(units@, big_endian),
{
    let mut k: usize = 0;
    while k < units.len()
        invariant
            k <= units@.len(),
            out@ == old(out)@ + bytes_of_units(units@.take(k as int), big_endian),
        decreases units@.len() - k,
    {
        let unit = units[k];
        let high = (unit / 256) as u8;
        let low = (unit % 256) as u8;
        if big_endian {
            out.push(high);
            out.push(low);
        } else {
            out.push(low);
            out.push(high);
        }
        k = k + 1;
        assert(bytes_of_units(units@.take(k as int), big_endian) =~= bytes_of_units(
            units@.take(k - 1),
            big_endian,
        ) + if big_endian {
            seq![high, low]
        } else {
            seq![low, high]
        });
    }
    assert(units@.take(units@.len() as int) =~= units@);
}

/// Encoding a text splits over concatenation.
pub proof fn lemma_encode_append(a: Seq<char>, b: Seq<char>)
    ensures
        utf16_encode(a + b) == utf16_encode(a) + utf16_encode(b),
    decreases b.len(),
{
    if b.len() == 0 {
        assert(a + b =~= a);
        assert(utf16_encode(a) + utf16_encode(b) =~= utf16_encode(a));
    } else {
        lemma_encode_append(a, b.drop_last());
        assert((a + b).drop_last() =~= a + b.drop_last());
        assert(utf16_encode(a + b) =~= utf16_encode(a) + utf16_encode(b));
    }
}

/// Well-formed UTF-16 decodes to a text whose encoding gives the units back.
pub proof fn lemma_decode_encode(u: Seq<u16>)
    requires
        is_well_formed_utf16(u),
    ensures
        utf16_encode(utf16_decode(u)) == u,
    decreases u.len(),
{
    if u.len() == 0 {
        assert(utf16_decode(u) =~= Seq::<char>::empty());
    } else {
        let k: int = if starts_with_pair(u) { 2 } else { 1 };
        let rest = u.subrange(k, u.len() as int);
        lemma_decode_encode(rest);
        let c = utf16_decode(u)[0];
        assert(utf16_decode(u) == seq![c] + utf16_decode(rest));
        lemma_encode_append(seq![c], utf16_decode(rest));
        assert(seq![c].drop_last() =~= Seq::<char>::empty());
        assert(utf16_encode(seq![c].drop_last()) =~= Seq::<u16>::empty());
        assert(utf16_encode(seq![c]) =~= char_units(c));
        if starts_with_pair(u) {
            lemma_pair_is_scalar(u[0], u[1]);
            let (hi, lo) = (u[0], u[1]);
            assert(0xD800 <= hi <= 0xDBFF && 0xDC00 <= lo <= 0xDFFF ==> {
                let w = ((hi - 0xD800) * 0x400 + (lo - 0xDC00)) as u32;
                &&& (0xD800 + w / 0x400) as u16 == hi
                &&& (0xDC00 + w % 0x400) as u16 == lo
            }) by (bit_vector);
            assert(char_units(c) =~= u.subrange(0, 2));
        } else {
            lemma_single_is_scalar(u[0]);
            assert(char_units(c) =~= u.subrange(0, 1));
        }
        assert(u =~= u.subrange(0, k) + rest);
    }
}

/// Splitting an even-length buffer into code units and writing them back
/// gives the same bytes.
pub proof fn lemma_units_bytes_round_trip(b: Seq<u8>, big_endian: bool)
    requires
        b.len() % 2 == 0,
    ensures
        bytes_of_units(units_of_bytes(b, big_endian), big_endian) == b,
{
    let r = bytes_of_units(units_of_bytes(b, big_endian), big_endian);
    assert forall|i: int| 0 <= i < b.len() implies #[trigger] r[i] == b[i] by {
        let k = i / 2;
        let (x, y) = (b[2 * k], b[2 * k + 1]);
        assert(((x as u16) * 256 + y as u16) / 256 == x && ((x as u16) * 256 + y as u16) % 256
            == y) by (bit_vector);
        assert(((y as u16) * 256 + x as u16) / 256 == y && ((y as u16) * 256 + x as u16) % 256
            == x) by (bit_vector);
    }
    assert(r =~= b);
}

} // verus!
