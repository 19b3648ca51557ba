//! One ID3v2 frame: a four-character ID, a size, two flag bytes and a text
//! payload, with the codec between frames and their bytes.
use vstd::prelude::*;
use crate::diagnostics::{ParseError, Warning};
use crate::known_ids::{KNOWN_ID3V2_IDS, KNOWN_ID_COUNT};
use crate::latin1::{is_latin1_buffer, latin1_char};
use crate::text::{push_char, str_equal, string_from_utf8};
use crate::utf16::{
    bytes_of_units, encode_utf16, is_well_formed_utf16, push_unit_bytes, units_from_bytes,
    units_of_bytes, utf16_decode, utf16_encode,
};
use crate::utils::{
    be_bytes, be_value, bit_is_set, check_bit, is_syncsafe, read_be_integer, read_syncsafe_integer,
    syncsafe_bytes, syncsafe_value, write_be_integer, write_syncsafe_integer,
};
use vstd::string::{StrSliceExecFns, StringExecFns};
use vstd::utf8::{decode_utf8, encode_utf8, valid_utf8};

verus! {

/// The byte order of UTF-16 text.
#[derive(Clone, Copy, Debug, PartialEq, Eq, Structural)]
pub enum Endianness {
    BigEndian,
    LittleEndian,
}

/// The encoding of a frame's text, found from its payload's byte order mark.
#[derive(Clone, Copy, Debug, PartialEq, Eq, Structural)]
pub enum Encoding {
    Latin1,
    Utf16(Endianness),
}

/// The flags of a frame. The two raw bytes are kept as read and are what is
/// written back; the booleans are what they say.
#[derive(Clone, Copy, Debug)]
pub struct ID3v2FrameFlags {
    /// Whether the frame should be discarded when an unknown frame's tag is altered.
    pub tag_alter_preservation: bool,
    /// Whether the frame should be discarded when the audio is altered.
    pub file_alter_preservation: bool,
    /// Whether the frame's contents are meant to be read only.
    pub read_only: bool,
    /// Whether the frame is compressed.
    pub compression: bool,
    /// Whether the frame is encrypted.
    pub encryption: bool,
    /// Whether the frame belongs to a group of frames.
    pub grouping_identity: bool,
    /// The two flag bytes as they stand in the frame header.
    pub raw_flags_bytes: (u8, u8),
}

/// The flags that two flag bytes give.
pub open spec fn frame_flags_of(first: u8, second: u8) -> ID3v2FrameFlags {
    ID3v2FrameFlags {
        tag_alter_preservation: bit_is_set(first, 7),
        file_alter_preservation: bit_is_set(first, 6),
        read_only: bit_is_set(first, 5),
        compression: bit_is_set(second, 7),
        encryption: bit_is_set(second, 6),
        grouping_identity: bit_is_set(second, 5),
        raw_flags_bytes: (first, second),
    }
}

/// The flags of a frame made from user input: none set.
pub open spec fn no_frame_flags() -> ID3v2FrameFlags {
    frame_flags_of(0, 0)
}

/// Whether one of the low five bits of either flag byte is set.
pub open spec fn has_unofficial_frame_flags(first: u8, second: u8) -> bool {
    first % 32 != 0 || second % 32 != 0
}

impl ID3v2FrameFlags {
    pub fn from_bytes(first: u8, second: u8) -> (r: ID3v2FrameFlags)
        ensures
            r == frame_flags_of(first, second),
    {
        ID3v2FrameFlags {
            tag_alter_preservation: check_bit(first, 7),
            file_alter_preservation: check_bit(first, 6),
            read_only: check_bit(first, 5),
            compression: check_bit(second, 7),
            encryption: check_bit(second, 6),
            grouping_identity: check_bit(second, 5),
            raw_flags_bytes: (first, second),
        }
    }
}

/// A character allowed in a frame ID: an upper-case ASCII letter or a digit.
pub open spec fn is_id_char(c: char) -> bool {
    ('A' <= c && c <= 'Z') || ('0' <= c && c <= '9')
}

/// A byte allowed in a frame ID: the ASCII code of an upper-case letter or a digit.
pub open spec fn is_id_byte(b: u8) -> bool {
    (0x41 <= b && b <= 0x5A) || (0x30 <= b && b <= 0x39)
}

/// A well-formed frame ID: four upper-case letters or digits.
pub open spec fn is_valid_id(s: Seq<char>) -> bool {
    s.len() == 4 && forall|i: int| 0 <= i < 4 ==> is_id_char(#[trigger] s[i])
}

/// A well-formed frame ID that the table of known IDs holds.
pub open spec fn is_known_id(s: Seq<char>) -> bool {
    is_valid_id(s) && exists|i: int| 0 <= i < KNOWN_ID_COUNT && (#[trigger] KNOWN_ID3V2_IDS[i]).0@ == s
}

fn is_id_character(c: char) -> (r: bool)
    ensures
        r == is_id_char(c),
{
    ('A' <= c && c <= 'Z') || ('0' <= c && c <= '9')
}

pub fn is_string_valid_id3v2_id(value: &str) -> (r: bool)
    ensures
        r == is_valid_id(value@),
{
    if value.unicode_len() != 4 {
        return false;
    }
    let mut i: usize = 0;
    while i < 4
        invariant
            value@.len() == 4,
            i <= 4,
            forall|j: int| 0 <= j < i ==> is_id_char(#[trigger] value@[j]),
        decreases 4 - i,
    {
        if !is_id_character(value.get_char(i)) {
            return false;
        }
        i = i + 1;
    }
    true
}

pub fn is_string_known_id3v2_id(value: &str) -> (r: bool)
    ensures
        r == is_known_id(value@),
{
    if !is_string_valid_id3v2_id(value) {
        return false;
    }
    let mut i: usize = 0;
    while i < KNOWN_ID_COUNT
        invariant
            i <= KNOWN_ID_COUNT,
            is_valid_id(value@),
            forall|j: int| 0 <= j < i ==> (#[trigger] KNOWN_ID3V2_IDS[j]).0@ != value@,
        decreases KNOWN_ID_COUNT - i,
    {
        if str_equal(KNOWN_ID3V2_IDS[i].0, value) {
            return true;
        }
        i = i + 1;
    }
    false
}

/// How the four size bytes of a frame header hold the payload's length.
#[derive(Clone, Copy, Debug, PartialEq, Eq, Structural)]
pub enum SizeConvention {
    /// Seven bits in each byte, as ID3v2.4 has it.
    Syncsafe,
    /// A plain big-endian 32-bit integer, as ID3v2.3 has it.
    BigEndian,
}

/// How frames write their text.
#[derive(Clone, Copy, Debug, PartialEq, Eq, Structural)]
pub enum TextWriteMode {
    /// Each frame keeps the encoding it has; a Latin-1 frame whose text
    /// Latin-1 cannot hold is written as big-endian UTF-16.
    PreserveEncoding,
    /// Every frame is written as big-endian UTF-16: the byte order mark FE FF,
    /// then the code units. No null code units stand before the mark or after
    /// the text: a payload that started with them would read back as Latin-1,
    /// and the size field counts exactly the bytes written.
    NormalizeToUtf16,
}

/// One frame of a tag.
#[derive(Debug)]
pub struct ID3v2Frame {
    pub flags: ID3v2FrameFlags,
    /// The payload length that the frame was read with, or the byte length
    /// of the UTF-8 text it was given.
    pub size: u32,
    pub id: String,
    pub data: String,
    pub encoding: Encoding,
}

/// The mathematical value of a frame.
pub struct FrameView {
    pub flags: ID3v2FrameFlags,
    pub size: u32,
    pub id: Seq<char>,
    pub data: Seq<char>,
    pub encoding: Encoding,
}

impl View for ID3v2Frame {
    type V = FrameView;

    open spec fn view(&self) -> FrameView {
        FrameView {
            flags: self.flags,
            size: self.size,
            id: self.id@,
            data: self.data@,
            encoding: self.encoding,
        }
    }
}

/// The byte order mark that starts UTF-16 text of the given byte order.
pub open spec fn bom(e: Endianness) -> Seq<u8> {
    match e {
        Endianness::BigEndian => seq![0xFEu8, 0xFFu8],
        Endianness::LittleEndian => seq![0xFFu8, 0xFEu8],
    }
}

/// The encoding of a payload: UTF-16 behind a byte order mark, else Latin-1.
pub open spec fn detect_encoding(p: Seq<u8>) -> Encoding {
    if p.len() >= 2 && p[0] == 0xFE && p[1] == 0xFF {
        Encoding::Utf16(Endianness::BigEndian)
    } else if p.len() >= 2 && p[0] == 0xFF && p[1] == 0xFE {
        Encoding::Utf16(Endianness::LittleEndian)
    } else {
        Encoding::Latin1
    }
}

/// The text of a payload, read in the encoding that its start shows. Latin-1
/// bytes stand for their code points, control characters included.
pub open spec fn decode_payload(p: Seq<u8>) -> Seq<char> {
    match detect_encoding(p) {
        Encoding::Latin1 => p.map_values(|b: u8| latin1_char(b)),
        Encoding::Utf16(e) => utf16_decode(
            units_of_bytes(p.subrange(2, p.len() as int), e == Endianness::BigEndian),
        ),
    }
}

/// The payload that holds a text in an encoding.
pub open spec fn encode_payload(e: Encoding, text: Seq<char>) -> Seq<u8> {
    match e {
        Encoding::Latin1 => text.map_values(|c: char| c as u8),
        Encoding::Utf16(end) => bom(end) + bytes_of_units(
            utf16_encode(text),
            end == Endianness::BigEndian,
        ),
    }
}

/// Whether a text starts with the two characters whose Latin-1 bytes form a
/// byte order mark.
pub open spec fn starts_like_bom(s: Seq<char>) -> bool {
    s.len() >= 2 && ((s[0] as u32 == 0xFE && s[1] as u32 == 0xFF) || (s[0] as u32 == 0xFF
        && s[1] as u32 == 0xFE))
}

/// Whether Latin-1 holds a text: every character has a code point that fits
/// in one byte, and the first two bytes do not read back as a byte order mark.
pub open spec fn fits_latin1(s: Seq<char>) -> bool {
    (forall|i: int| 0 <= i < s.len() ==> (#[trigger] s[i]) as u32 <= 0xFF) && !starts_like_bom(s)
}

/// The encoding a frame is written in. Keeping the encoding, a Latin-1 frame
/// whose text Latin-1 cannot hold is written as big-endian UTF-16.
pub open spec fn written_encoding(e: Encoding, text: Seq<char>, mode: TextWriteMode) -> Encoding {
    match mode {
        TextWriteMode::PreserveEncoding => match e {
            Encoding::Latin1 => if fits_latin1(text) {
                Encoding::Latin1
            } else {
                Encoding::Utf16(Endianness::BigEndian)
            },
            Encoding::Utf16(end) => Encoding::Utf16(end),
        },
        TextWriteMode::NormalizeToUtf16 => Encoding::Utf16(Endianness::BigEndian),
    }
}

/// The length in bytes of the UTF-8 form of a text, in the 32 bits of the
/// size field.
pub open spec fn utf8_size(s: Seq<char>) -> u32 {
    #[verifier::truncate]
    ((encode_utf8(s).len() as usize) as u32)
}

/// The names of the set flags, in the order they are shown.
pub open spec fn flag_names(f: ID3v2FrameFlags) -> Seq<Seq<char>> {
    (if f.read_only { seq!["read-only"@] } else { seq![] }) + (if f.compression {
        seq!["compression"@]
    } else {
        seq![]
    }) + (if f.encryption { seq!["encryption"@] } else { seq![] }) + (
    if f.file_alter_preservation {
        seq!["file-alter-preservation"@]
    } else {
        seq![]
    }) + (if f.tag_alter_preservation {
        seq!["tag-alter-preservation"@]
    } else {
        seq![]
    }) + (if f.grouping_identity { seq!["grouping-identity"@] } else { seq![] })
}

/// Names joined with ", " between them.
pub open spec fn join_names(names: Seq<Seq<char>>) -> Seq<char>
    decreases names.len(),
{
    if names.len() == 0 {
        seq![]
    } else if names.len() == 1 {
        names[0]
    } else {
        join_names(names.drop_last()) + ", "@ + names.last()
    }
}

/// The flags for people: the set flags' names in parentheses, or nothing.
pub open spec fn human_flags(f: ID3v2FrameFlags) -> Seq<char> {
    if flag_names(f).len() == 0 {
        seq![]
    } else {
        "("@ + join_names(flag_names(f)) + ")"@
    }
}

/// The flags in six characters, one letter for each set flag and '.' for each other.
pub open spec fn compact_flags(f: ID3v2FrameFlags) -> Seq<char> {
    seq![
        if f.read_only { 'r' } else { '.' },
        if f.compression { 'c' } else { '.' },
        if f.encryption { 'e' } else { '.' },
        if f.file_alter_preservation { 'f' } else { '.' },
        if f.tag_alter_preservation { 'r' } else { '.' },
        if f.grouping_identity { 'g' } else { '.' },
    ]
}

fn flag_name_list(f: ID3v2FrameFlags) -> (r: Vec<&'static str>)
    ensures
        r@.map_values(|s: &str| s@) == flag_names(f),
{
    let mut names: Vec<&'static str> = Vec::new();
    if f.read_only {
        names.push("read-only");
    }
    if f.compression {
        names.push("compression");
    }
    if f.encryption {
        names.push("encryption");
    }
    if f.file_alter_preservation {
        names.push("file-alter-preservation");
    }
    if f.tag_alter_preservation {
        names.push("tag-alter-preservation");
    }
    if f.grouping_identity {
        names.push("grouping-identity");
    }
    assert(names@.map_values(|s: &str| s@) =~= flag_names(f));
    names
}

fn human_flags_text(f: ID3v2FrameFlags) -> (r: String)
    ensures
        r@ == human_flags(f),
{
    let names = flag_name_list(f);
    let ghost name_views = names@.map_values(|s: &str| s@);
    if names.len() == 0 {
        return String::new();
    }
    let mut joined = String::new();
    let mut i: usize = 0;
    while i < names.len()
        invariant
            i <= names@.len(),
            name_views == names@.map_values(|s: &str| s@),
            joined@ == join_names(name_views.take(i as int)),
        decreases names@.len() - i,
    {
        if i > 0 {
            joined.append(", ");
        }
        joined.append(names[i]);
        assert(name_views.take(i + 1).drop_last() =~= name_views.take(i as int));
        i = i + 1;
    }
    assert(name_views.take(names@.len() as int) =~= name_views);
    let mut r = String::from_str("(");
    r.append(joined.as_str());
    r.append(")");
    r
}

fn compact_flags_text(f: ID3v2FrameFlags) -> (r: String)
    ensures
        r@ == compact_flags(f),
{
    let mut r = String::new();
    push_char(&mut r, if f.read_only { 'r' } else { '.' });
    push_char(&mut r, if f.compression { 'c' } else { '.' });
    push_char(&mut r, if f.encryption { 'e' } else { '.' });
    push_char(&mut r, if f.file_alter_preservation { 'f' } else { '.' });
    push_char(&mut r, if f.tag_alter_preservation { 'r' } else { '.' });
    push_char(&mut r, if f.grouping_identity { 'g' } else { '.' });
    assert(r@ =~= compact_flags(f));
    r
}

fn text_fits_latin1(s: &String) -> (r: bool)
    ensures
        r == fits_latin1(s@),
{
    let text = s.as_str();
    let n = text.unicode_len();
    if n >= 2 {
        let (a, b) = (text.get_char(0) as u32, text.get_char(1) as u32);
        if (a == 0xFE && b == 0xFF) || (a == 0xFF && b == 0xFE) {
            return false;
        }
    }
    for c in it: text.chars()
        invariant
            it.seq() == s@,
            !starts_like_bom(s@),
            forall|j: int| 0 <= j < it.index() ==> (#[trigger] s@[j]) as u32 <= 0xFF,
    {
        if c as u32 > 0xFF {
            return false;
        }
    }
    true
}

impl ID3v2Frame {
    /// A frame made from an ID and a text, in Latin-1, with no flags set.
    pub fn from_user_input(id: String, data: String) -> (r: ID3v2Frame)
        ensures
            r@ == (FrameView {
                flags: no_frame_flags(),
                size: utf8_size(data@),
                id: id@,
                data: data@,
                encoding: Encoding::Latin1,
            }),
    {
        let size = #[verifier::truncate] (data.as_str().len() as u32);
        ID3v2Frame { size, id, data, encoding: Encoding::Latin1, flags: ID3v2FrameFlags::from_bytes(0, 0) }
    }

    pub fn format_id(&self) -> (r: String)
        ensures
            r@ == self.id@,
    {
        self.id.clone()
    }

    pub fn format_data(&self) -> (r: String)
        ensures
            r@ == self.data@,
    {
        self.data.clone()
    }

    /// Whether four characters can start a frame: each is an upper-case
    /// letter or a digit.
    pub fn is_valid_frame_header(bytes: &[char; 4]) -> (r: bool)
        ensures
            r == (forall|i: int| 0 <= i < 4 ==> is_id_char(#[trigger] bytes@[i])),
    {
        let r = is_id_character(bytes[0]) && is_id_character(bytes[1]) && is_id_character(
            bytes[2],
        ) && is_id_character(bytes[3]);
        assert(r ==> forall|i: int| 0 <= i < 4 ==> is_id_char(#[trigger] bytes@[i])) by {
            if r {
                assert forall|i: int| 0 <= i < 4 implies is_id_char(#[trigger] bytes@[i]) by {
                    assert(i == 0 || i == 1 || i == 2 || i == 3);
                }
            }
        }
        r
    }

    /// The flags as text: for people, the names of the set flags in
    /// parentheses; else six characters, one for each flag.
    pub fn format_flags(&self, human_readable: bool) -> (r: String)
        ensures
            r@ == if human_readable {
                human_flags(self.flags)
            } else {
                compact_flags(self.flags)
            },
    {
        if human_readable {
            human_flags_text(self.flags)
        } else {
            compact_flags_text(self.flags)
        }
    }

    /// Replaces the frame's text; the size becomes the new text's UTF-8
    /// length. ID, flags and encoding stay.
    pub fn edit_data(&mut self, data: String)
        ensures
            final(self)@ == (FrameView { size: utf8_size(data@), data: data@, ..old(self)@ }),
    {
        self.size = #[verifier::truncate] (data.as_str().len() as u32);
        self.data = data;
    }
}

/// Whether the four bytes at `pos` look like a frame ID, which is how the
/// frame sequence ends: at the first place where they do not.
pub open spec fn starts_frame(b: Seq<u8>, pos: int) -> bool {
    0 <= pos && pos + 4 <= b.len() && forall|i: int| 0 <= i < 4 ==> is_id_byte(#[trigger] b[pos + i])
}

/// The payload length that the size field of the frame at `pos` gives.
pub open spec fn frame_size_at(b: Seq<u8>, pos: int, conv: SizeConvention) -> u32 {
    let field = b.subrange(pos + 4, pos + 8);
    match conv {
        SizeConvention::Syncsafe => syncsafe_value(field) as u32,
        SizeConvention::BigEndian => be_value(field) as u32,
    }
}

/// Where the frame at `pos` ends: after its ten header bytes and its payload.
pub open spec fn frame_end(b: Seq<u8>, pos: int, conv: SizeConvention) -> int {
    pos + 10 + frame_size_at(b, pos, conv)
}

/// The four ID bytes of the frame at `pos`.
pub open spec fn frame_id_bytes(b: Seq<u8>, pos: int) -> Seq<u8> {
    b.subrange(pos, pos + 4)
}

/// The payload of the frame at `pos`.
pub open spec fn frame_payload(b: Seq<u8>, pos: int, conv: SizeConvention) -> Seq<u8> {
    b.subrange(pos + 10, frame_end(b, pos, conv))
}

/// The frame that starts at `pos`, and where it ends.
pub open spec fn parse_frame(b: Seq<u8>, pos: int, conv: SizeConvention) -> Result<
    (FrameView, int),
    ParseError,
> {
    if b.len() < pos + 10 {
        Err(ParseError::TruncatedFrameHeader)
    } else if !valid_utf8(frame_id_bytes(b, pos)) {
        Err(ParseError::FrameIdNotUtf8)
    } else if b.len() < frame_end(b, pos, conv) {
        Err(ParseError::TruncatedFrameData)
    } else {
        let p = frame_payload(b, pos, conv);
        Ok(
            (
                FrameView {
                    flags: frame_flags_of(b[pos + 8], b[pos + 9]),
                    size: frame_size_at(b, pos, conv),
                    id: decode_utf8(frame_id_bytes(b, pos)),
                    data: decode_payload(p),
                    encoding: detect_encoding(p),
                },
                frame_end(b, pos, conv),
            ),
        )
    }
}

/// The warnings that reading the frame at `pos` gives, also when the read
/// then fails: those found before the failure.
pub open spec fn frame_warnings(b: Seq<u8>, pos: int, conv: SizeConvention) -> Seq<Warning> {
    if b.len() < pos + 10 || !valid_utf8(frame_id_bytes(b, pos)) {
        seq![]
    } else if b.len() < frame_end(b, pos, conv) {
        frame_header_warnings(b, pos)
    } else {
        frame_header_warnings(b, pos) + payload_warnings(b, pos, conv)
    }
}

/// The warnings on a frame's ID and flags, which come before its payload is read.
pub open spec fn frame_header_warnings(b: Seq<u8>, pos: int) -> Seq<Warning> {
    let id = decode_utf8(frame_id_bytes(b, pos));
    (if !is_valid_id(id) {
        seq![Warning::InvalidFrameId(pos as usize)]
    } else if !is_known_id(id) {
        seq![Warning::UnknownFrameId(pos as usize)]
    } else {
        seq![]
    }) + (if has_unofficial_frame_flags(b[pos + 8], b[pos + 9]) {
        seq![Warning::UnofficialFrameFlags(pos as usize)]
    } else {
        seq![]
    })
}

/// The warning on a frame's payload: no byte order mark and not clean Latin-1.
pub open spec fn payload_warnings(b: Seq<u8>, pos: int, conv: SizeConvention) -> Seq<Warning> {
    let p = frame_payload(b, pos, conv);
    if detect_encoding(p) == Encoding::Latin1 && !is_latin1_buffer(p) {
        seq![Warning::NotLatin1(pos as usize)]
    } else {
        seq![]
    }
}

/// The size field that holds `n` in a convention.
pub open spec fn size_field(conv: SizeConvention, n: u32) -> Seq<u8> {
    match conv {
        SizeConvention::Syncsafe => syncsafe_bytes(n),
        SizeConvention::BigEndian => be_bytes(n),
    }
}

/// Whether a convention's size field can hold `n`.
pub open spec fn size_fits(conv: SizeConvention, n: int) -> bool {
    match conv {
        SizeConvention::Syncsafe => n < 0x1000_0000,
        SizeConvention::BigEndian => n <= u32::MAX,
    }
}

/// The payload a frame is written with.
pub open spec fn written_payload(f: FrameView, mode: TextWriteMode) -> Seq<u8> {
    encode_payload(written_encoding(f.encoding, f.data, mode), f.data)
}

/// The bytes of a frame: ID, size field, flag bytes and payload. There are
/// none when the ID is not four bytes long or the size field cannot hold the
/// payload's length.
pub open spec fn frame_bytes(f: FrameView, conv: SizeConvention, mode: TextWriteMode) -> Option<
    Seq<u8>,
> {
    let p = written_payload(f, mode);
    if encode_utf8(f.id).len() == 4 && size_fits(conv, p.len() as int) {
        Some(
            encode_utf8(f.id) + size_field(conv, p.len() as u32) + seq![
                f.flags.raw_flags_bytes.0,
                f.flags.raw_flags_bytes.1,
            ] + p,
        )
    } else {
        None
    }
}

/// Reads a payload's text in the encoding that its start shows.
fn decode_payload_text(p: &Vec<u8>) -> (r: (Encoding, String))
    ensures
        r.0 == detect_encoding(p@),
        r.1@ == decode_payload(p@),
{
    let n = p.len();
    if n >= 2 && ((p[0] == 0xFE && p[1] == 0xFF) || (p[0] == 0xFF && p[1] == 0xFE)) {
        let big = p[0] == 0xFE;
        let units = units_from_bytes(p.as_slice(), 2, big);
        let text = crate::utf16::decode_utf16(&units);
        let e = if big {
            Endianness::BigEndian
        } else {
            Endianness::LittleEndian
        };
        (Encoding::Utf16(e), text)
    } else {
        let mut text = String::new();
        let mut i: usize = 0;
        while i < n
            invariant
                n == p@.len(),
                i <= n,
                text@ =~= p@.take(i as int).map_values(|b: u8| latin1_char(b)),
            decreases n - i,
        {
            push_char(&mut text, p[i] as char);
            i = i + 1;
            assert(text@ =~= p@.take(i as int).map_values(|b: u8| latin1_char(b)));
        }
        assert(p@.take(n as int) =~= p@);
        (Encoding::Latin1, text)
    }
}

/// Appends to `out` the payload that holds a text in an encoding.
fn push_payload(out: &mut Vec<u8>, encoding: Encoding, text: &String)
    ensures
        final(out)@ == old(out)@ + encode_payload(encoding, text@),
{
    match encoding {
        Encoding::Latin1 => {
            let ghost start = out@;
            for c in it: text.as_str().chars()
                invariant
                    it.seq() == text@,
                    out@ =~= start + text@.take(it.index() as int).map_values(|c: char| c as u8),
            {
                out.push(c as u8);
                assert(out@ =~= start + text@.take(it.index() + 1).map_values(|c: char| c as u8));
            }
            assert(text@.take(text@.len() as int) =~= text@);
        },
        Encoding::Utf16(e) => {
            let big = match e {
                Endianness::BigEndian => true,
                Endianness::LittleEndian => false,
            };
            let ghost start = out@;
            if big {
                out.push(0xFE);
                out.push(0xFF);
            } else {
                out.push(0xFF);
                out.push(0xFE);
            }
            assert(out@ =~= start + bom(e));
            let units = encode_utf16(text.as_str());
            push_unit_bytes(out, &units, big);
            assert(out@ =~= start + encode_payload(encoding, text@));
        },
    }
}

impl ID3v2Frame {
    /// Reads whether the four bytes at `pos` look like a frame ID.
    pub fn has_new_frame(bytes: &[u8], pos: usize) -> (r: bool)
        ensures
            r == starts_frame(bytes@, pos as int),
    {
        if pos > bytes.len() || bytes.len() - pos < 4 {
            return false;
        }
        let mut i: usize = 0;
        while i < 4
            invariant
                pos + 4 <= bytes.len(),
                i <= 4,
                forall|j: int| 0 <= j < i ==> is_id_byte(#[trigger] bytes@[pos + j]),
            decreases 4 - i,
        {
            let b = bytes[pos + i];
            if !((0x41 <= b && b <= 0x5A) || (0x30 <= b && b <= 0x39)) {
                return false;
            }
            i = i + 1;
        }
        true
    }

    /// Reads the frame that starts at `pos`, returning it with the position
    /// where it ends, and appends the warnings it gives to `warnings`, also
    /// those found before a fatal error.
    pub fn from_read_file(
        bytes: &[u8],
        pos: usize,
        convention: SizeConvention,
        warnings: &mut Vec<Warning>,
    ) -> (r: Result<(ID3v2Frame, usize), ParseError>)
        requires
            pos <= bytes@.len(),
        ensures
            match parse_frame(bytes@, pos as int, convention) {
                Ok((f, end)) => {
                    &&& r matches Ok((frame, e))
                    &&& frame@ == f
                    &&& e == end
                },
                Err(err) => r matches Err(e) && e == err,
            },
            final(warnings)@ == old(warnings)@ + frame_warnings(bytes@, pos as int, convention),
    {
        let ghost b = bytes@;
        if bytes.len() - pos < 10 {
            return Err(ParseError::TruncatedFrameHeader);
        }
        let id_bytes = [bytes[pos], bytes[pos + 1], bytes[pos + 2], bytes[pos + 3]];
        assert(id_bytes@ =~= frame_id_bytes(b, pos as int));
        let id = match string_from_utf8(&id_bytes) {
            Some(s) => s,
            None => return Err(ParseError::FrameIdNotUtf8),
        };
        proof {
            vstd::utf8::encode_utf8_decode_utf8(id@);
        }
        let size_bytes = [bytes[pos + 4], bytes[pos + 5], bytes[pos + 6], bytes[pos + 7]];
        assert(size_bytes@ =~= b.subrange(pos + 4, pos + 8));
        let size = match convention {
            SizeConvention::Syncsafe => read_syncsafe_integer(&size_bytes),
            SizeConvention::BigEndian => read_be_integer(&size_bytes),
        };
        let flags = ID3v2FrameFlags::from_bytes(bytes[pos + 8], bytes[pos + 9]);
        let ghost before = warnings@;
        if !is_string_valid_id3v2_id(id.as_str()) {
            warnings.push(Warning::InvalidFrameId(pos));
        } else if !is_string_known_id3v2_id(id.as_str()) {
            warnings.push(Warning::UnknownFrameId(pos));
        }
        if bytes[pos + 8] % 32 != 0 || bytes[pos + 9] % 32 != 0 {
            warnings.push(Warning::UnofficialFrameFlags(pos));
        }
        assert(warnings@ =~= before + frame_header_warnings(b, pos as int));
        if bytes.len() - pos - 10 < size as usize {
            return Err(ParseError::TruncatedFrameData);
        }
        let end = pos + 10 + size as usize;
        let mut payload: Vec<u8> = Vec::new();
        let mut i: usize = pos + 10;
        while i < end
            invariant
                b == bytes@,
                pos + 10 <= i <= end <= b.len(),
                payload@ =~= b.subrange(pos + 10, i as int),
            decreases end - i,
        {
            payload.push(bytes[i]);
            i = i + 1;
            assert(payload@ =~= b.subrange(pos + 10, i as int));
        }
        let (encoding, data) = decode_payload_text(&payload);
        let is_latin1 = match encoding {
            Encoding::Latin1 => true,
            Encoding::Utf16(_) => false,
        };
        if is_latin1 && !crate::latin1::is_valid_latin1_string(payload.as_slice()) {
            warnings.push(Warning::NotLatin1(pos));
        }
        assert(warnings@ =~= before + frame_warnings(b, pos as int, convention));
        Ok((ID3v2Frame { flags, size, id, data, encoding }, end))
    }

    /// The payload that the frame is written with under `mode`.
    pub fn payload_bytes(&self, mode: TextWriteMode) -> (r: Vec<u8>)
        ensures
            r@ == written_payload(self@, mode),
    {
        let encoding = match mode {
            TextWriteMode::PreserveEncoding => match self.encoding {
                Encoding::Latin1 => if text_fits_latin1(&self.data) {
                    Encoding::Latin1
                } else {
                    Encoding::Utf16(Endianness::BigEndian)
                },
                Encoding::Utf16(end) => Encoding::Utf16(end),
            },
            TextWriteMode::NormalizeToUtf16 => Encoding::Utf16(Endianness::BigEndian),
        };
        let mut payload: Vec<u8> = Vec::new();
        push_payload(&mut payload, encoding, &self.data);
        assert(payload@ =~= written_payload(self@, mode));
        payload
    }

    /// The bytes that the frame writes to a file, with its text written as `mode` says and its
    /// size field in `convention`; none when the ID is not four bytes long or
    /// the size field cannot hold the payload's length.
    pub fn write_to_file(&self, convention: SizeConvention, mode: TextWriteMode) -> (r: Option<Vec<u8>>)
        ensures
            r matches Some(v) ==> frame_bytes(self@, convention, mode) == Some(v@),
            r is None ==> frame_bytes(self@, convention, mode) is None,
    {
        let mut payload = self.payload_bytes(mode);
        let id_bytes = self.id.as_str().as_bytes();
        if id_bytes.len() != 4 {
            return None;
        }
        let n = payload.len();
        let size_bytes = match convention {
            SizeConvention::Syncsafe => {
                if n >= 0x1000_0000 {
                    return None;
                }
                write_syncsafe_integer(n as u32)
            },
            SizeConvention::BigEndian => {
                if n > 0xFFFF_FFFF {
                    return None;
                }
                write_be_integer(n as u32)
            },
        };
        let mut out: Vec<u8> = Vec::new();
        out.push(id_bytes[0]);
        out.push(id_bytes[1]);
        out.push(id_bytes[2]);
        out.push(id_bytes[3]);
        out.push(size_bytes[0]);
        out.push(size_bytes[1]);
        out.push(size_bytes[2]);
        out.push(size_bytes[3]);
        out.push(self.flags.raw_flags_bytes.0);
        out.push(self.flags.raw_flags_bytes.1);
        let ghost head = out@;
        out.append(&mut payload);
        assert(head =~= encode_utf8(self.id@) + size_field(convention, n as u32) + seq![
            self.flags.raw_flags_bytes.0,
            self.flags.raw_flags_bytes.1,
        ]);
        Some(out)
    }
}

/// Whether a payload is written back as it was read: Latin-1 always is;
/// UTF-16 needs an even length and well-formed code units after the mark.
pub open spec fn is_canonical_payload(p: Seq<u8>) -> bool {
    match detect_encoding(p) {
        Encoding::Latin1 => true,
        Encoding::Utf16(e) => p.len() % 2 == 0 && is_well_formed_utf16(
            units_of_bytes(p.subrange(2, p.len() as int), e == Endianness::BigEndian),
        ),
    }
}

/// Whether the size field of the frame at `pos` has the form that the
/// convention writes: syncsafe sizes need every most significant bit clear.
pub open spec fn is_canonical_size_field(b: Seq<u8>, pos: int, conv: SizeConvention) -> bool {
    conv == SizeConvention::Syncsafe ==> is_syncsafe(b.subrange(pos + 4, pos + 8))
}

/// Encoding the text of a canonical payload in the encoding it was read in
/// gives the payload back.
pub proof fn lemma_payload_round_trip(p: Seq<u8>)
    requires
        is_canonical_payload(p),
    ensures
        encode_payload(detect_encoding(p), decode_payload(p)) == p,
{
    match detect_encoding(p) {
        Encoding::Latin1 => {
            let text = p.map_values(|b: u8| latin1_char(b));
            assert forall|i: int| 0 <= i < p.len() implies #[trigger] (text[i] as u8) == p[i] by {}
            assert(text.map_values(|c: char| c as u8) =~= p);
        },
        Encoding::Utf16(e) => {
            let big = e == Endianness::BigEndian;
            let rest = p.subrange(2, p.len() as int);
            let units = units_of_bytes(rest, big);
            crate::utf16::lemma_decode_encode(units);
            crate::utf16::lemma_units_bytes_round_trip(rest, big);
            assert(p =~= bom(e) + rest);
        },
    }
}

/// A frame read from canonical bytes is written back as those bytes, and its
/// written length is its ten header bytes and the payload read.
pub proof fn lemma_frame_round_trip(b: Seq<u8>, pos: int, conv: SizeConvention)
    requires
        0 <= pos,
        parse_frame(b, pos, conv) is Ok,
        is_canonical_size_field(b, pos, conv),
        is_canonical_payload(frame_payload(b, pos, conv)),
    ensures
        ({
            let (f, next) = parse_frame(b, pos, conv)->Ok_0;
            &&& frame_bytes(f, conv, TextWriteMode::PreserveEncoding) == Some(b.subrange(pos, next))
            &&& 10 + written_payload(f, TextWriteMode::PreserveEncoding).len() == next - pos
        }),
{
    let (f, next) = parse_frame(b, pos, conv)->Ok_0;
    let p = frame_payload(b, pos, conv);
    let idb = frame_id_bytes(b, pos);
    let field = b.subrange(pos + 4, pos + 8);
    vstd::utf8::decode_utf8_encode_utf8(idb);
    lemma_payload_round_trip(p);
    assert(written_payload(f, TextWriteMode::PreserveEncoding) == p);
    match conv {
        SizeConvention::Syncsafe => crate::utils::lemma_syncsafe_bytes_round_trip(field),
        SizeConvention::BigEndian => crate::utils::lemma_be_bytes_round_trip(field),
    }
    assert(size_field(conv, p.len() as u32) == field);
    assert(b.subrange(pos, next) =~= idb + field + seq![b[pos + 8], b[pos + 9]] + p);
}

} // verus!
