//! What reading a tag can report: fatal errors that stop the read, and
//! warnings that are reported while the read goes on.
use vstd::prelude::*;
use crate::text::{decimal, push_decimal, string_from_utf8};
use vstd::utf8::{decode_utf8, valid_utf8};
use vstd::string::StringExecFns;

verus! {

/// Why a tag could not be read. Each of these stops the whole read.
#[derive(Clone, Copy, Debug, PartialEq, Eq, Structural)]
pub enum ParseError {
    /// The data ends inside the ten header bytes.
    TruncatedHeader,
    /// The data does not start with "ID3".
    NotAnId3Tag,
    /// The data ends inside the extended header.
    TruncatedExtendedHeader,
    /// The data ends inside the ten header bytes of a frame.
    TruncatedFrameHeader,
    /// The four ID bytes of a frame are not valid UTF-8.
    FrameIdNotUtf8,
    /// The data ends before the payload of a frame does.
    TruncatedFrameData,
}

/// Something unusual in a tag that does not stop the read. The frame
/// warnings carry the offset of the frame's first byte.
#[derive(Clone, Copy, Debug, PartialEq, Eq, Structural)]
pub enum Warning {
    /// The tag's version is not 4; it is given.
    UnsupportedVersion(u16),
    /// One of the low five bits of the header's flags byte is set.
    UnofficialHeaderFlags,
    /// The tag size field has a byte whose most significant bit is set.
    HeaderSizeNotSyncsafe,
    /// A frame ID is not four upper-case letters or digits.
    InvalidFrameId(usize),
    /// A frame ID is well formed but not one the standards define.
    UnknownFrameId(usize),
    /// One of the low five bits of a frame's flag bytes is set.
    UnofficialFrameFlags(usize),
    /// A payload has no byte order mark and is not clean Latin-1 either.
    NotLatin1(usize),
}

/// The text that reports a fatal read error.
pub open spec fn parse_error_message(e: ParseError) -> Seq<char> {
    match e {
        ParseError::TruncatedHeader => "Could not read the ID3v2 Header. File ended too soon."@,
        ParseError::NotAnId3Tag => "Invalid header. It does not start with \"ID3\" as its first 3 bytes"@,
        ParseError::TruncatedExtendedHeader => "Could not read the extended header. File ended too soon."@,
        ParseError::TruncatedFrameHeader => "Failed to read frame header. File ended too soon."@,
        ParseError::FrameIdNotUtf8 => "Failed to transform frame ID to UTF8 string. Invalid string."@,
        ParseError::TruncatedFrameData => "Failed to read frame data. File ended too soon."@,
    }
}

/// The text that reports a warning; `id` is the ID of the frame concerned.
pub open spec fn warning_text(w: Warning, id: Seq<char>) -> Seq<char> {
    match w {
        Warning::UnsupportedVersion(v) => "Header version is "@ + decimal(v as nat)
            + ", but this software only supports version 4"@,
        Warning::UnofficialHeaderFlags => "Header has unofficial flag bits set"@,
        Warning::HeaderSizeNotSyncsafe => "Header size is not properly represented as a syncsafe integer"@,
        Warning::InvalidFrameId(_) => "Frame id \""@ + id + "\" is not a valid frame id."@,
        Warning::UnknownFrameId(_) => "Frame id \""@ + id + "\" is valid, but not a known frame id."@,
        Warning::UnofficialFrameFlags(_) => "Frame has unofficial flag bits set"@,
        Warning::NotLatin1(_) => "Data for frame with ID "@ + id
            + " is not a valid ISO-8859-1 string, and does not have a Byte Order Mark, so it's also not a valid UTF-16. Will treat as a ISO-8859-1 anyways."@,
    }
}

/// The text of the four bytes at `at`, read as UTF-8; empty where they are
/// not all in `b` or are not valid UTF-8.
pub open spec fn id_text_at(b: Seq<u8>, at: int) -> Seq<char> {
    if 0 <= at && at + 4 <= b.len() && valid_utf8(b.subrange(at, at + 4)) {
        decode_utf8(b.subrange(at, at + 4))
    } else {
        seq![]
    }
}

/// The ID of the frame that a warning is about, read from the bytes it was
/// found in; empty for the header warnings.
pub open spec fn warning_frame_id(w: Warning, b: Seq<u8>) -> Seq<char> {
    match w {
        Warning::InvalidFrameId(at) => id_text_at(b, at as int),
        Warning::UnknownFrameId(at) => id_text_at(b, at as int),
        Warning::UnofficialFrameFlags(at) => id_text_at(b, at as int),
        Warning::NotLatin1(at) => id_text_at(b, at as int),
        _ => seq![],
    }
}

impl ParseError {
    /// The text that reports this error.
    pub fn message(&self) -> (r: &'static str)
        ensures
            r@ == parse_error_message(*self),
    {
        match self {
            ParseError::TruncatedHeader => "Could not read the ID3v2 Header. File ended too soon.",
            ParseError::NotAnId3Tag => "Invalid header. It does not start with \"ID3\" as its first 3 bytes",
            ParseError::TruncatedExtendedHeader => "Could not read the extended header. File ended too soon.",
            ParseError::TruncatedFrameHeader => "Failed to read frame header. File ended too soon.",
            ParseError::FrameIdNotUtf8 => "Failed to transform frame ID to UTF8 string. Invalid string.",
            ParseError::TruncatedFrameData => "Failed to read frame data. File ended too soon.",
        }
    }
}

impl Warning {
    /// The text that reports this warning; `frame_id` is the ID of the frame
    /// concerned and is not used by the header warnings.
    pub fn message(&self, frame_id: &str) -> (r: String)
        ensures
            r@ == warning_text(*self, frame_id@),
    {
        match self {
            Warning::UnsupportedVersion(v) => {
                let mut m = String::from_str("Header version is ");
                push_decimal(&mut m, *v as u32);
                m.append(", but this software only supports version 4");
                m
            },
            Warning::UnofficialHeaderFlags => String::from_str("Header has unofficial flag bits set"),
            Warning::HeaderSizeNotSyncsafe => String::from_str(
                "Header size is not properly represented as a syncsafe integer",
            ),
            Warning::InvalidFrameId(_) => {
                let mut m = String::from_str("Frame id \"");
                m.append(frame_id);
                m.append("\" is not a valid frame id.");
                m
            },
            Warning::UnknownFrameId(_) => {
                let mut m = String::from_str("Frame id \"");
                m.append(frame_id);
                m.append("\" is valid, but not a known frame id.");
                m
            },
            Warning::UnofficialFrameFlags(_) => String::from_str("Frame has unofficial flag bits set"),
            Warning::NotLatin1(_) => {
                let mut m = String::from_str("Data for frame with ID ");
                m.append(frame_id);
                m.append(
                    " is not a valid ISO-8859-1 string, and does not have a Byte Order Mark, so it's also not a valid UTF-16. Will treat as a ISO-8859-1 anyways.",
                );
                m
            },
        }
    }

    /// The text that reports this warning, with the frame ID read from
    /// `bytes`, the data the warning was found in.
    pub fn describe(&self, bytes: &[u8]) -> (r: String)
        ensures
            r@ == warning_text(*self, warning_frame_id(*self, bytes@)),
    {
        let offset = match self {
            Warning::InvalidFrameId(at) => Some(*at),
            Warning::UnknownFrameId(at) => Some(*at),
            Warning::UnofficialFrameFlags(at) => Some(*at),
            Warning::NotLatin1(at) => Some(*at),
            _ => None,
        };
        let id = match offset {
            Some(at) => {
                if at <= bytes.len() && bytes.len() - at >= 4 {
                    let id_bytes = [bytes[at], bytes[at + 1], bytes[at + 2], bytes[at + 3]];
                    assert(id_bytes@ =~= bytes@.subrange(at as int, at + 4));
                    match string_from_utf8(&id_bytes) {
                        Some(s) => {
                            proof {
                                vstd::utf8::encode_utf8_decode_utf8(s@);
                            }
                            s
                        },
                        None => String::new(),
                    }
                } else {
                    String::new()
                }
            },
            None => String::new(),
        };
        assert(id@ == warning_frame_id(*self, bytes@));
        self.message(id.as_str())
    }
}

} // verus!
