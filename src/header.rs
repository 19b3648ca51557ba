//! The ten-byte header that opens an ID3v2 tag, and the extended header that
//! may follow it.
use vstd::prelude::*;
use crate::diagnostics::{ParseError, Warning};
use crate::frame::SizeConvention;
use crate::utils::{
    bit_is_set, check_bit, is_syncsafe, is_valid_syncsafe_integer, read_syncsafe_integer,
    syncsafe_bytes, syncsafe_value, write_syncsafe_integer,
};

verus! {

/// The flags of a tag header. The raw byte is kept as read and is what is
/// written back.
#[derive(Clone, Copy, Debug, PartialEq, Eq, Structural)]
pub struct ID3v2HeaderFlags {
    pub has_extended_header: bool,
    pub has_unsynchronization: bool,
    pub has_experimental_indicator: bool,
    pub raw_flags_byte: u8,
}

/// A tag header: its flags, the tag size it states and the version.
#[derive(Clone, Copy, Debug, PartialEq, Eq, Structural)]
pub struct ID3v2Header {
    pub flags: ID3v2HeaderFlags,
    /// The tag size that the header states: frames and extended header.
    pub size: u32,
    /// The major version in the low byte, the revision in the high byte.
    pub version: u16,
}

/// The only version that is fully supported.
pub const SUPPORTED_VERSION: u16 = 4;

/// The flags that a header's flags byte gives.
pub open spec fn header_flags_of(byte: u8) -> ID3v2HeaderFlags {
    ID3v2HeaderFlags {
        has_experimental_indicator: bit_is_set(byte, 7),
        has_extended_header: bit_is_set(byte, 6),
        has_unsynchronization: bit_is_set(byte, 5),
        raw_flags_byte: byte,
    }
}

/// The version that the major and revision bytes give.
pub open spec fn version_of(major: u8, revision: u8) -> u16 {
    (revision * 256 + major) as u16
}

/// The size of the extended header's body, which follows its four size bytes.
pub open spec fn extended_header_size(b: Seq<u8>) -> int {
    syncsafe_value(b.subrange(10, 14))
}

/// The header at the start of `b`, and where the frames start.
pub open spec fn parse_header(b: Seq<u8>) -> Result<(ID3v2Header, int), ParseError> {
    if b.len() < 10 {
        Err(ParseError::TruncatedHeader)
    } else if b[0] != 0x49 || b[1] != 0x44 || b[2] != 0x33 {
        Err(ParseError::NotAnId3Tag)
    } else {
        let h = ID3v2Header {
            flags: header_flags_of(b[5]),
            size: syncsafe_value(b.subrange(6, 10)) as u32,
            version: version_of(b[3], b[4]),
        };
        if !h.flags.has_extended_header {
            Ok((h, 10))
        } else if b.len() < 14 || b.len() < 14 + extended_header_size(b) {
            Err(ParseError::TruncatedExtendedHeader)
        } else {
            Ok((h, 14 + extended_header_size(b)))
        }
    }
}

/// The warnings that reading the header at the start of `b` gives. They
/// come once the ten header bytes are read and start with "ID3", before the
/// extended header is.
pub open spec fn header_warnings(b: Seq<u8>) -> Seq<Warning> {
    if b.len() < 10 || b[0] != 0x49 || b[1] != 0x44 || b[2] != 0x33 {
        seq![]
    } else {
        known_header_warnings(b)
    }
}

/// The warnings on the version, flags and size of a header that was read.
pub open spec fn known_header_warnings(b: Seq<u8>) -> Seq<Warning> {
    let version = version_of(b[3], b[4]);
    (if version != SUPPORTED_VERSION {
        seq![Warning::UnsupportedVersion(version)]
    } else {
        seq![]
    }) + (if b[5] % 32 != 0 {
        seq![Warning::UnofficialHeaderFlags]
    } else {
        seq![]
    }) + (if !is_syncsafe(b.subrange(6, 10)) {
        seq![Warning::HeaderSizeNotSyncsafe]
    } else {
        seq![]
    })
}

/// How the frames of a tag of a version state their sizes: syncsafe for
/// version 4, big-endian for the others.
pub open spec fn frame_size_convention(version: u16) -> SizeConvention {
    if version == SUPPORTED_VERSION {
        SizeConvention::Syncsafe
    } else {
        SizeConvention::BigEndian
    }
}

/// The ten bytes of a header that states `size`.
pub open spec fn header_bytes(h: ID3v2Header, size: u32) -> Seq<u8> {
    seq![
        0x49u8,
        0x44u8,
        0x33u8,
        (h.version % 256) as u8,
        (h.version / 256) as u8,
        h.flags.raw_flags_byte,
    ] + syncsafe_bytes(size)
}

impl ID3v2Header {
    /// Reads the header at the start of `bytes` and skips the extended header
    /// if there is one, returning the header and where the frames start. The
    /// warnings it gives are appended to `warnings`, also when the extended
    /// header then turns out to be cut short.
    pub fn from_read_file(bytes: &[u8], warnings: &mut Vec<Warning>) -> (r: Result<
        (ID3v2Header, usize),
        ParseError,
    >)
        ensures
            match parse_header(bytes@) {
                Ok((h, start)) => {
                    &&& r matches Ok((header, s))
                    &&& header == h
                    &&& s == start
                },
                Err(err) => r matches Err(e) && e == err,
            },
            final(warnings)@ == old(warnings)@ + header_warnings(bytes@),
    {
        let ghost b = bytes@;
        if bytes.len() < 10 {
            return Err(ParseError::TruncatedHeader);
        }
        if bytes[0] != 0x49 || bytes[1] != 0x44 || bytes[2] != 0x33 {
            return Err(ParseError::NotAnId3Tag);
        }
        let version = bytes[4] as u16 * 256 + bytes[3] as u16;
        let flags_byte = bytes[5];
        let flags = ID3v2HeaderFlags {
            has_experimental_indicator: check_bit(flags_byte, 7),
            has_extended_header: check_bit(flags_byte, 6),
            has_unsynchronization: check_bit(flags_byte, 5),
            raw_flags_byte: flags_byte,
        };
        let size_bytes = [bytes[6], bytes[7], bytes[8], bytes[9]];
        assert(size_bytes@ =~= b.subrange(6, 10));
        let size = read_syncsafe_integer(&size_bytes);
        let ghost before = warnings@;
        if version != SUPPORTED_VERSION {
            warnings.push(Warning::UnsupportedVersion(version));
        }
        if flags_byte % 32 != 0 {
            warnings.push(Warning::UnofficialHeaderFlags);
        }
        if !is_valid_syncsafe_integer(&size_bytes) {
            warnings.push(Warning::HeaderSizeNotSyncsafe);
        }
        assert(warnings@ =~= before + header_warnings(b));
        let mut start: usize = 10;
        if flags.has_extended_header {
            if bytes.len() < 14 {
                return Err(ParseError::TruncatedExtendedHeader);
            }
            let ext_bytes = [bytes[10], bytes[11], bytes[12], bytes[13]];
            assert(ext_bytes@ =~= b.subrange(10, 14));
            let ext_size = read_syncsafe_integer(&ext_bytes);
            if bytes.len() - 14 < ext_size as usize {
                return Err(ParseError::TruncatedExtendedHeader);
            }
            start = 14 + ext_size as usize;
        }
        Ok((ID3v2Header { flags, size, version }, start))
    }

    /// The ten bytes that this header writes to a file, stating `size` as the tag size.
    pub fn write_to_file(&self, size: u32) -> (r: Vec<u8>)
        ensures
            r@ == header_bytes(*self, size),
    {
        let size_bytes = write_syncsafe_integer(size);
        let mut out: Vec<u8> = Vec::new();
        out.push(0x49);
        out.push(0x44);
        out.push(0x33);
        out.push((self.version % 256) as u8);
        out.push((self.version / 256) as u8);
        out.push(self.flags.raw_flags_byte);
        out.push(size_bytes[0]);
        out.push(size_bytes[1]);
        out.push(size_bytes[2]);
        out.push(size_bytes[3]);
        assert(out@ =~= header_bytes(*self, size));
        out
    }

    pub fn has_extended_header(&self) -> (r: bool)
        ensures
            r == self.flags.has_extended_header,
    {
        self.flags.has_extended_header
    }

    /// How this tag's frames state their sizes.
    pub fn frame_size_convention(&self) -> (r: SizeConvention)
        ensures
            r == frame_size_convention(self.version),
    {
        if self.version == SUPPORTED_VERSION {
            SizeConvention::Syncsafe
        } else {
            SizeConvention::BigEndian
        }
    }
}

} // verus!
