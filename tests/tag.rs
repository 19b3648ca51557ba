use id3_editor::diagnostics::{ParseError, Warning};
use id3_editor::frame::{Encoding, TextWriteMode};
use id3_editor::frame::ID3v2Frame;
use id3_editor::mp3_file::Mp3File;

fn header(version: [u8; 2], flags: u8, size: [u8; 4]) -> Vec<u8> {
    let mut v = b"ID3".to_vec();
    v.extend_from_slice(&version);
    v.push(flags);
    v.extend_from_slice(&size);
    v
}

fn frame(id: &[u8; 4], payload: &[u8]) -> Vec<u8> {
    let mut v = id.to_vec();
    v.extend_from_slice(&[0, 0, 0, payload.len() as u8, 0, 0]);
    v.extend_from_slice(payload);
    v
}

fn tag(frames: &[(&[u8; 4], &[u8])], audio: &[u8]) -> Vec<u8> {
    let body: Vec<u8> = frames.iter().flat_map(|(id, p)| frame(id, p)).collect();
    let mut v = header([4, 0], 0, [0, 0, 0, body.len() as u8]);
    v.extend(body);
    v.extend_from_slice(audio);
    v
}

fn read(bytes: &[u8]) -> (Result<Mp3File, ParseError>, Vec<Warning>) {
    let mut warnings = Vec::new();
    let result = Mp3File::from_bytes(bytes, &mut warnings);
    (result, warnings)
}

fn three_frames() -> Mp3File {
    let bytes = tag(&[(b"TXXX", b"a0"), (b"COMM", b"b0"), (b"TXXX", b"a1")], b"");
    read(&bytes).0.unwrap()
}

#[test]
fn round_trip_is_byte_identical() {
    let audio = [0xFFu8, 0xFB, 0x90, 0x00, 0x12, 0x34];
    let bytes = tag(
        &[
            (b"TIT2", b"Hello"),
            (b"TPE1", &[0xFE, 0xFF, 0x00, 0x41, 0xD8, 0x3D, 0xDE, 0x00]),
            (b"COMM", &[0xFF, 0xFE, 0x41, 0x00]),
        ],
        &audio,
    );
    let (result, warnings) = read(&bytes);
    let file = result.unwrap();
    assert!(warnings.is_empty());
    assert_eq!(file.frame_count(), 3);
    assert_eq!(file.audio(), &audio.to_vec());
    let written = file.write_to_file(TextWriteMode::PreserveEncoding).unwrap();
    assert_eq!(written, bytes);
    let again = read(&written).0.unwrap();
    assert_eq!(again.format_frames(true, false), file.format_frames(true, false));
}

#[test]
fn round_trip_with_big_endian_sizes() {
    let mut bytes = header([3, 0], 0, [0, 0, 0, 14]);
    bytes.extend(b"TALB\x00\x00\x00\x04\x00\x00Best");
    bytes.extend(b"audio");
    let (result, warnings) = read(&bytes);
    let file = result.unwrap();
    assert_eq!(warnings, vec![Warning::UnsupportedVersion(3)]);
    assert_eq!(file.write_to_file(TextWriteMode::PreserveEncoding).unwrap(), bytes);
}

#[test]
fn frame_lookup_by_occurrence() {
    let file = three_frames();
    assert_eq!(file.find_index_of_frame_with_id("TXXX", 0), Ok(0));
    assert_eq!(file.find_index_of_frame_with_id("TXXX", 1), Ok(2));
    assert_eq!(file.frame(2).format_data(), "a1");
    assert_eq!(file.find_index_of_frame_with_id("TXXX", 2), Err(2));
    assert_eq!(file.find_index_of_frame_with_id("COMM", 0), Ok(1));
    assert_eq!(file.find_index_of_frame_with_id("COMM", 1), Err(1));
    assert_eq!(file.find_index_of_frame_with_id("TIT2", 0), Err(0));
}

#[test]
fn edit_then_render() {
    let bytes = tag(&[(b"TIT2", b"Hello")], b"");
    let mut bytes = bytes;
    bytes[9] = 0;
    let mut file = read(&bytes).0.unwrap();
    assert_eq!(file.header().size, 0);
    assert_eq!(file.edit_frame("TIT2", "World".to_string(), 0), Ok(()));
    assert_eq!(file.format_frames(false, false), "TIT2 World");
}

#[test]
fn remove_missing_frame_changes_nothing() {
    let mut file = three_frames();
    let before = file.format_frames(false, false);
    assert_eq!(file.remove_frame("APIC", 0), Err(0));
    assert_eq!(file.format_frames(false, false), before);
    assert_eq!(file.frame_count(), 3);
    let bytes = tag(&[(b"TIT2", b"Hello")], b"");
    let mut file = read(&bytes).0.unwrap();
    assert_eq!(file.remove_frame("COMM", 0), Err(0));
    assert_eq!(file.format_frames(false, false), "TIT2 Hello");
}

#[test]
fn remove_renumbers_later_occurrences() {
    let bytes = tag(&[(b"TXXX", b"x0"), (b"TXXX", b"x1"), (b"TXXX", b"x2")], b"");
    let mut file = read(&bytes).0.unwrap();
    assert_eq!(file.remove_frame("TXXX", 0), Ok(()));
    let i = file.find_index_of_frame_with_id("TXXX", 0).unwrap();
    assert_eq!(file.frame(i).format_data(), "x1");
    let j = file.find_index_of_frame_with_id("TXXX", 1).unwrap();
    assert_eq!(file.frame(j).format_data(), "x2");
    assert_eq!(file.find_index_of_frame_with_id("TXXX", 2), Err(2));
}

#[test]
fn edit_missing_occurrence_reports_count() {
    let mut file = three_frames();
    assert_eq!(file.edit_frame("TXXX", "new".to_string(), 5), Err(2));
    assert_eq!(file.edit_frame("TXXX", "new".to_string(), 1), Ok(()));
    assert_eq!(file.format_frames(false, false), "TXXX a0\nCOMM b0\nTXXX new");
}

#[test]
fn add_appends_at_end() {
    let mut file = three_frames();
    file.add_frame("TIT2".to_string(), "Title".to_string());
    assert_eq!(file.frame_count(), 4);
    assert_eq!(file.frame(3).format_id(), "TIT2");
    assert_eq!(file.frame(3).encoding, Encoding::Latin1);
    let written = file.write_to_file(TextWriteMode::PreserveEncoding).unwrap();
    assert_eq!(&written[6..10], &[0, 0, 0, 51]);
    assert_eq!(&written[written.len() - 15..], b"TIT2\0\0\0\x05\0\0Title");
}

#[test]
fn render_with_flags_and_empty_tag() {
    let mut bytes = header([4, 0], 0, [0, 0, 0, 11]);
    bytes.extend(b"TIT2\x00\x00\x00\x01\x20\x00A");
    let file = read(&bytes).0.unwrap();
    assert_eq!(file.format_frames(true, true), "TIT2 (read-only) A");
    assert_eq!(file.format_frames(true, false), "TIT2 r..... A");
    assert_eq!(file.format_frames(false, true), "TIT2 A");
    let empty = read(&header([4, 0], 0, [0; 4])).0.unwrap();
    assert_eq!(empty.format_frames(false, false), "No frames in file.");
    let plain = tag(&[(b"TIT2", b"A")], b"");
    let file = read(&plain).0.unwrap();
    assert_eq!(file.format_frames(true, true), "TIT2 A");
}

#[test]
fn frames_stop_at_padding_and_audio_follows() {
    let mut bytes = header([4, 0], 0, [0, 0, 0, 20]);
    bytes.extend(frame(b"TIT2", b"Hi"));
    bytes.extend([0u8; 8]);
    bytes.extend([0xFF, 0xFB]);
    let file = read(&bytes).0.unwrap();
    assert_eq!(file.frame_count(), 1);
    let mut audio = vec![0u8; 8];
    audio.extend([0xFF, 0xFB]);
    assert_eq!(file.audio(), &audio);
    assert!(ID3v2Frame::has_new_frame(&bytes, 10));
    assert!(!ID3v2Frame::has_new_frame(&bytes, 22));
    assert!(!ID3v2Frame::has_new_frame(&bytes, bytes.len() - 2));
    assert!(!ID3v2Frame::has_new_frame(&bytes, bytes.len() + 5));
}

#[test]
fn extended_header_is_skipped() {
    let mut bytes = header([4, 0], 0b0100_0000, [0, 0, 0, 0]);
    bytes.extend([0, 0, 0, 2, 0xAA, 0xBB]);
    bytes.extend(frame(b"TIT2", b"Hi"));
    let file = read(&bytes).0.unwrap();
    assert!(file.header().has_extended_header());
    assert_eq!(file.frame_count(), 1);
    assert_eq!(file.calculate_id3v2_size(TextWriteMode::PreserveEncoding), Some(22));
}

#[test]
fn header_errors_and_warnings() {
    assert_eq!(read(b"ID3\x04\x00").0.err(), Some(ParseError::TruncatedHeader));
    assert_eq!(
        read(b"TAG\x04\x00\x00\x00\x00\x00\x00").0.err(),
        Some(ParseError::NotAnId3Tag)
    );
    assert_eq!(
        read(b"ID3\x04\x00\x40\x00\x00\x00\x00\x00\x00").0.err(),
        Some(ParseError::TruncatedExtendedHeader)
    );
    assert_eq!(
        read(b"ID3\x04\x00\x40\x00\x00\x00\x00\x00\x00\x00\x05ab").0.err(),
        Some(ParseError::TruncatedExtendedHeader)
    );
    let (result, warnings) = read(b"ID3\x04\x01\x1F\x80\x00\x00\x00");
    let _ = result.unwrap();
    assert_eq!(
        warnings,
        vec![
            Warning::UnsupportedVersion(260),
            Warning::UnofficialHeaderFlags,
            Warning::HeaderSizeNotSyncsafe
        ]
    );
}

#[test]
fn warnings_before_a_fatal_error_are_kept() {
    let (result, warnings) = read(b"ID3\x03\x00\x40\x00\x00\x00\x00\x00\x00");
    assert_eq!(result.err(), Some(ParseError::TruncatedExtendedHeader));
    assert_eq!(warnings, vec![Warning::UnsupportedVersion(3)]);
    let mut bytes = header([4, 0], 0, [0, 0, 0, 40]);
    bytes.extend(frame(b"ZZZZ", b"ok"));
    bytes.extend(b"TIT2\x00\x00\x00\x09\x01\x00abc");
    let (result, warnings) = read(&bytes);
    assert_eq!(result.err(), Some(ParseError::TruncatedFrameData));
    assert_eq!(
        warnings,
        vec![Warning::UnknownFrameId(10), Warning::UnofficialFrameFlags(22)]
    );
    assert_eq!(
        warnings[0].describe(&bytes),
        "Frame id \"ZZZZ\" is valid, but not a known frame id."
    );
}

#[test]
fn padded_tag_reads_back_after_saving() {
    let mut bytes = header([4, 0], 0, [0, 0, 0, 30]);
    bytes.extend(frame(b"TIT2", b"Hi"));
    bytes.extend(frame(b"TPE1", &[0xFF, 0xFE, 0x41, 0x00]));
    bytes.extend([0u8; 4]);
    bytes.extend([0xFF, 0xFB, 0x90]);
    let file = read(&bytes).0.unwrap();
    let written = file.write_to_file(TextWriteMode::PreserveEncoding).unwrap();
    assert_ne!(written, bytes);
    assert_eq!(&written[6..10], &[0, 0, 0, 26]);
    let again = read(&written).0.unwrap();
    assert_eq!(again.frame_count(), 2);
    assert_eq!(again.format_frames(true, true), file.format_frames(true, true));
    assert_eq!(again.audio(), file.audio());
}

#[test]
fn user_text_outside_latin1_is_written_as_utf16() {
    let mut file = read(&header([4, 0], 0, [0; 4])).0.unwrap();
    file.add_frame("TIT2".to_string(), "\u{100}".to_string());
    assert_eq!(file.frame(0).encoding, Encoding::Latin1);
    let written = file.write_to_file(TextWriteMode::PreserveEncoding).unwrap();
    assert_eq!(&written[10..], b"TIT2\x00\x00\x00\x04\x00\x00\xFE\xFF\x01\x00");
    let again = read(&written).0.unwrap();
    assert_eq!(again.frame(0).format_data(), "\u{100}");
}

#[test]
fn frame_errors_abort_the_read() {
    let mut bytes = header([4, 0], 0, [0, 0, 0, 20]);
    bytes.extend(b"TIT2\x00\x00\x00\x09\x00\x00abc");
    assert_eq!(read(&bytes).0.err(), Some(ParseError::TruncatedFrameData));
    let mut bytes = header([4, 0], 0, [0, 0, 0, 20]);
    bytes.extend(b"TIT2\x00\x00");
    assert_eq!(read(&bytes).0.err(), Some(ParseError::TruncatedFrameHeader));
}

#[test]
fn size_calculation_and_normalised_writing() {
    let bytes = tag(&[(b"TIT2", b"Hi")], b"zz");
    let file = read(&bytes).0.unwrap();
    assert_eq!(file.calculate_id3v2_size(TextWriteMode::PreserveEncoding), Some(12));
    assert_eq!(file.calculate_id3v2_size(TextWriteMode::NormalizeToUtf16), Some(16));
    let written = file.write_to_file(TextWriteMode::NormalizeToUtf16).unwrap();
    let mut expected = header([4, 0], 0, [0, 0, 0, 16]);
    expected.extend(b"TIT2\x00\x00\x00\x06\x00\x00\xFE\xFF\x00H\x00i");
    expected.extend(b"zz");
    assert_eq!(written, expected);
}

#[test]
fn oversized_tag_is_not_written() {
    let mut file = read(&header([4, 0], 0, [0; 4])).0.unwrap();
    file.add_frame("TXXX".to_string(), "a".repeat(0x0FFF_FFF6));
    assert_eq!(file.calculate_id3v2_size(TextWriteMode::PreserveEncoding), None);
    assert!(file.write_to_file(TextWriteMode::PreserveEncoding).is_none());
    assert_eq!(file.edit_frame("TXXX", "a".repeat(0x0FFF_FFF5), 0), Ok(()));
    assert_eq!(
        file.calculate_id3v2_size(TextWriteMode::PreserveEncoding),
        Some(0x0FFF_FFFF)
    );
}
