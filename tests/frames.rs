use id3_editor::diagnostics::{ParseError, Warning};
use id3_editor::frame::{
    is_string_known_id3v2_id, is_string_valid_id3v2_id, Encoding, Endianness, ID3v2Frame,
    ID3v2FrameFlags, SizeConvention, TextWriteMode,
};

fn frame_bytes(id: &[u8; 4], size: [u8; 4], flags: [u8; 2], payload: &[u8]) -> Vec<u8> {
    let mut v = id.to_vec();
    v.extend_from_slice(&size);
    v.extend_from_slice(&flags);
    v.extend_from_slice(payload);
    v
}

#[test]
fn frame_id_validation() {
    assert!(is_string_valid_id3v2_id("TIT2"));
    assert!(is_string_known_id3v2_id("TIT2"));
    assert!(!is_string_valid_id3v2_id("tit2"));
    assert!(!is_string_known_id3v2_id("tit2"));
    assert!(!is_string_valid_id3v2_id("T1T!"));
    assert!(is_string_valid_id3v2_id("ZZZZ"));
    assert!(!is_string_known_id3v2_id("ZZZZ"));
    assert!(!is_string_valid_id3v2_id("TIT"));
    assert!(!is_string_valid_id3v2_id("TIT22"));
    assert!(is_string_known_id3v2_id("WXXX"));
}

#[test]
fn frame_header_check_on_characters() {
    assert!(ID3v2Frame::is_valid_frame_header(&['T', 'I', 'T', '2']));
    assert!(!ID3v2Frame::is_valid_frame_header(&['T', 'i', 'T', '2']));
    assert!(!ID3v2Frame::is_valid_frame_header(&['\0', '\0', '\0', '\0']));
}

#[test]
fn flags_decode_from_bits() {
    let f = ID3v2FrameFlags::from_bytes(0b1010_0000, 0b0100_0000);
    assert!(f.tag_alter_preservation);
    assert!(!f.file_alter_preservation);
    assert!(f.read_only);
    assert!(!f.compression);
    assert!(f.encryption);
    assert!(!f.grouping_identity);
    assert_eq!(f.raw_flags_bytes, (0b1010_0000, 0b0100_0000));
}

#[test]
fn flag_formatting() {
    let mut buf = Vec::new();
    let bytes = frame_bytes(b"TIT2", [0, 0, 0, 1], [0b1110_0000, 0b1110_0000], b"x");
    let (frame, _) = ID3v2Frame::from_read_file(&bytes, 0, SizeConvention::Syncsafe, &mut buf).unwrap();
    assert_eq!(
        frame.format_flags(true),
        "(read-only, compression, encryption, file-alter-preservation, tag-alter-preservation, grouping-identity)"
    );
    assert_eq!(frame.format_flags(false), "rcefrg");

    let plain = ID3v2Frame::from_user_input("TIT2".to_string(), "x".to_string());
    assert_eq!(plain.format_flags(true), "");
    assert_eq!(plain.format_flags(false), "......");

    let bytes = frame_bytes(b"TIT2", [0, 0, 0, 1], [0b0100_0000, 0b0010_0000], b"x");
    let (frame, _) = ID3v2Frame::from_read_file(&bytes, 0, SizeConvention::Syncsafe, &mut buf).unwrap();
    assert_eq!(frame.format_flags(true), "(file-alter-preservation, grouping-identity)");
    assert_eq!(frame.format_flags(false), "...f.g");
}

#[test]
fn user_frame_defaults() {
    let f = ID3v2Frame::from_user_input("COMM".to_string(), "Hello".to_string());
    assert_eq!(f.format_id(), "COMM");
    assert_eq!(f.format_data(), "Hello");
    assert_eq!(f.size, 5);
    assert_eq!(f.encoding, Encoding::Latin1);
    assert_eq!(f.flags.raw_flags_bytes, (0, 0));
    let g = ID3v2Frame::from_user_input("TIT2".to_string(), "\u{3042}".to_string());
    assert_eq!(g.size, 3);
    assert_eq!(g.encoding, Encoding::Latin1);
    assert_eq!(
        g.payload_bytes(TextWriteMode::PreserveEncoding),
        vec![0xFE, 0xFF, 0x30, 0x42]
    );
    let h = ID3v2Frame::from_user_input("TIT2".to_string(), "\u{fe}\u{ff}x".to_string());
    assert_eq!(h.encoding, Encoding::Latin1);
    assert_eq!(
        h.payload_bytes(TextWriteMode::PreserveEncoding),
        vec![0xFE, 0xFF, 0x00, 0xFE, 0x00, 0xFF, 0x00, 0x78]
    );
    let i = ID3v2Frame::from_user_input("TIT2".to_string(), "caf\u{e9}".to_string());
    assert_eq!(i.payload_bytes(TextWriteMode::PreserveEncoding), vec![0x63, 0x61, 0x66, 0xE9]);
}

#[test]
fn edit_replaces_text_and_size() {
    let mut f = ID3v2Frame::from_user_input("TIT2".to_string(), "Hello".to_string());
    f.edit_data("Longer title".to_string());
    assert_eq!(f.format_data(), "Longer title");
    assert_eq!(f.size, 12);
    assert_eq!(f.encoding, Encoding::Latin1);
    f.edit_data("\u{100}".to_string());
    assert_eq!(f.encoding, Encoding::Latin1);
    assert_eq!(f.size, 2);
    let bytes = frame_bytes(b"TIT2", [0, 0, 0, 4], [0, 0], &[0xFF, 0xFE, 0x41, 0x00]);
    let mut warnings = Vec::new();
    let (mut u, _) =
        ID3v2Frame::from_read_file(&bytes, 0, SizeConvention::Syncsafe, &mut warnings).unwrap();
    u.edit_data("B".to_string());
    assert_eq!(u.encoding, Encoding::Utf16(Endianness::LittleEndian));
    assert_eq!(u.payload_bytes(TextWriteMode::PreserveEncoding), vec![0xFF, 0xFE, 0x42, 0x00]);
}

#[test]
fn parse_latin1_frame() {
    let bytes = frame_bytes(b"TIT2", [0, 0, 0, 5], [0, 0], b"Hello");
    let mut warnings = Vec::new();
    let (frame, end) =
        ID3v2Frame::from_read_file(&bytes, 0, SizeConvention::Syncsafe, &mut warnings).unwrap();
    assert_eq!(end, 15);
    assert_eq!(frame.id, "TIT2");
    assert_eq!(frame.data, "Hello");
    assert_eq!(frame.size, 5);
    assert_eq!(frame.encoding, Encoding::Latin1);
    assert!(warnings.is_empty());
}

#[test]
fn parse_utf16_frames_both_byte_orders() {
    let mut warnings = Vec::new();
    let be = frame_bytes(b"TIT2", [0, 0, 0, 6], [0, 0], &[0xFE, 0xFF, 0x00, 0x48, 0x00, 0xE9]);
    let (f, _) = ID3v2Frame::from_read_file(&be, 0, SizeConvention::Syncsafe, &mut warnings).unwrap();
    assert_eq!(f.data, "H\u{e9}");
    assert_eq!(f.encoding, Encoding::Utf16(Endianness::BigEndian));
    let le = frame_bytes(b"TIT2", [0, 0, 0, 6], [0, 0], &[0xFF, 0xFE, 0x48, 0x00, 0xE9, 0x00]);
    let (f, _) = ID3v2Frame::from_read_file(&le, 0, SizeConvention::Syncsafe, &mut warnings).unwrap();
    assert_eq!(f.data, "H\u{e9}");
    assert_eq!(f.encoding, Encoding::Utf16(Endianness::LittleEndian));
    assert!(warnings.is_empty());
}

#[test]
fn parse_big_endian_size_convention() {
    let payload = vec![b'a'; 200];
    let bytes = frame_bytes(b"COMM", [0, 0, 0, 200], [0, 0], &payload);
    let mut warnings = Vec::new();
    let (f, end) =
        ID3v2Frame::from_read_file(&bytes, 0, SizeConvention::BigEndian, &mut warnings).unwrap();
    assert_eq!(end, 210);
    assert_eq!(f.size, 200);
    let bytes = frame_bytes(b"COMM", [0, 0, 1, 0x48], [0, 0], &payload);
    let (f, end) =
        ID3v2Frame::from_read_file(&bytes, 0, SizeConvention::Syncsafe, &mut warnings).unwrap();
    assert_eq!(end, 210);
    assert_eq!(f.size, 200);
}

#[test]
fn parse_frame_warnings() {
    let mut warnings = Vec::new();
    let bytes = frame_bytes(b"ZZZZ", [0, 0, 0, 2], [0x01, 0x00], &[0x41, 0x05]);
    ID3v2Frame::from_read_file(&bytes, 0, SizeConvention::Syncsafe, &mut warnings).unwrap();
    assert_eq!(
        warnings,
        vec![
            Warning::UnknownFrameId(0),
            Warning::UnofficialFrameFlags(0),
            Warning::NotLatin1(0)
        ]
    );
    let mut warnings = Vec::new();
    let mut bytes = vec![0u8, 0u8];
    bytes.extend(frame_bytes(b"ab!d", [0, 0, 0, 1], [0, 0], b"x"));
    let (f, end) =
        ID3v2Frame::from_read_file(&bytes, 2, SizeConvention::Syncsafe, &mut warnings).unwrap();
    assert_eq!(f.id, "ab!d");
    assert_eq!(end, 13);
    assert_eq!(warnings, vec![Warning::InvalidFrameId(2)]);
}

#[test]
fn lossy_latin1_keeps_code_points() {
    let mut warnings = Vec::new();
    let bytes = frame_bytes(b"TIT2", [0, 0, 0, 3], [0, 0], &[0x00, 0x41, 0x0A]);
    let (f, _) = ID3v2Frame::from_read_file(&bytes, 0, SizeConvention::Syncsafe, &mut warnings).unwrap();
    assert_eq!(f.data, "\u{0}A\n");
    assert_eq!(warnings, vec![Warning::NotLatin1(0)]);
    let mut warnings = Vec::new();
    let bytes = frame_bytes(b"TIT2", [0, 0, 0, 2], [0, 0], &[0x00, 0x41]);
    let (f, _) = ID3v2Frame::from_read_file(&bytes, 0, SizeConvention::Syncsafe, &mut warnings).unwrap();
    assert_eq!(f.data, "\u{0}A");
    assert!(warnings.is_empty());
}

#[test]
fn parse_frame_errors() {
    let mut warnings = Vec::new();
    let short = b"TIT2\0\0\0".to_vec();
    assert!(matches!(
        ID3v2Frame::from_read_file(&short, 0, SizeConvention::Syncsafe, &mut warnings),
        Err(ParseError::TruncatedFrameHeader)
    ));
    let bad_utf8 = frame_bytes(&[0xFF, 0x41, 0x41, 0x41], [0, 0, 0, 0], [0, 0], b"");
    assert!(matches!(
        ID3v2Frame::from_read_file(&bad_utf8, 0, SizeConvention::Syncsafe, &mut warnings),
        Err(ParseError::FrameIdNotUtf8)
    ));
    assert!(warnings.is_empty());
    let truncated = frame_bytes(b"ZZZZ", [0, 0, 0, 9], [0, 0], b"abc");
    assert!(matches!(
        ID3v2Frame::from_read_file(&truncated, 0, SizeConvention::Syncsafe, &mut warnings),
        Err(ParseError::TruncatedFrameData)
    ));
    assert_eq!(warnings, vec![Warning::UnknownFrameId(0)]);
}

#[test]
fn frame_serialisation() {
    let f = ID3v2Frame::from_user_input("TIT2".to_string(), "Hi".to_string());
    assert_eq!(
        f.write_to_file(SizeConvention::Syncsafe, TextWriteMode::PreserveEncoding),
        Some(vec![b'T', b'I', b'T', b'2', 0, 0, 0, 2, 0, 0, b'H', b'i'])
    );
    assert_eq!(
        f.write_to_file(SizeConvention::BigEndian, TextWriteMode::NormalizeToUtf16),
        Some(vec![b'T', b'I', b'T', b'2', 0, 0, 0, 6, 0, 0, 0xFE, 0xFF, 0, b'H', 0, b'i'])
    );
    assert_eq!(f.payload_bytes(TextWriteMode::PreserveEncoding), b"Hi".to_vec());
    let long_id = ID3v2Frame::from_user_input("TITLE".to_string(), "Hi".to_string());
    assert_eq!(
        long_id.write_to_file(SizeConvention::Syncsafe, TextWriteMode::PreserveEncoding),
        None
    );
}

#[test]
fn frame_written_back_as_read() {
    let bytes = frame_bytes(b"TIT2", [0, 0, 0, 6], [0x20, 0x40], &[0xFF, 0xFE, 0x3D, 0xD8, 0x00, 0xDE]);
    let mut warnings = Vec::new();
    let (f, _) = ID3v2Frame::from_read_file(&bytes, 0, SizeConvention::Syncsafe, &mut warnings).unwrap();
    assert_eq!(f.data, "\u{1F600}");
    assert_eq!(
        f.write_to_file(SizeConvention::Syncsafe, TextWriteMode::PreserveEncoding),
        Some(bytes)
    );
}
