use id3_editor::diagnostics::{ParseError, Warning};
use id3_editor::cli::{
    error_no_frame_with_id_found, ordinal_numeral, validate_frame_id, validate_frame_index,
};
use id3_editor::log::{self, get_level_from_env, init, level_from_name, LogLevels, Logger};

#[test]
fn ordinal_suffixes() {
    assert_eq!(ordinal_numeral(1), "st");
    assert_eq!(ordinal_numeral(2), "nd");
    assert_eq!(ordinal_numeral(3), "rd");
    assert_eq!(ordinal_numeral(4), "th");
    assert_eq!(ordinal_numeral(11), "th");
}

#[test]
fn frame_index_must_not_be_zero() {
    assert!(validate_frame_index(1).is_ok());
    let record = validate_frame_index(0).unwrap_err();
    assert_eq!(record.level, LogLevels::Error);
    assert_eq!(record.message, "The frame index starts at one, not zero.");
}

#[test]
fn frame_id_checks() {
    assert!(validate_frame_id("TIT2").unwrap().is_none());
    let warning = validate_frame_id("ZZZZ").unwrap().unwrap();
    assert_eq!(warning.level, LogLevels::Warn);
    assert_eq!(
        warning.message,
        "Provided frame id \"ZZZZ\" is not a known id. The operation will still be executed."
    );
    let error = validate_frame_id("tit2").unwrap_err();
    assert_eq!(error.level, LogLevels::Error);
    assert!(error.message.starts_with("Provided frame id \"tit2\" is not valid."));
}

#[test]
fn missing_frame_messages() {
    assert_eq!(
        error_no_frame_with_id_found("COMM", 1, 0).message,
        "Error: No frame found with id \"COMM\""
    );
    assert_eq!(
        error_no_frame_with_id_found("COMM", 2, 1).message,
        "There is only 1 frame with id \"COMM\". You tried to remove the 2nd"
    );
    assert_eq!(
        error_no_frame_with_id_found("TXXX", 130, 12).message,
        "There are only 12 frames with id \"TXXX\". You tried to remove the 130th"
    );
    assert_eq!(error_no_frame_with_id_found("TXXX", 3, 2).level, LogLevels::Error);
}

#[test]
fn log_levels_from_settings() {
    assert_eq!(level_from_name("info"), LogLevels::Info);
    assert_eq!(level_from_name("trace"), LogLevels::Trace);
    assert_eq!(level_from_name("warning"), LogLevels::Warn);
    assert_eq!(level_from_name("err"), LogLevels::Error);
    assert_eq!(level_from_name("nonsense"), LogLevels::Info);
    assert_eq!(get_level_from_env(Some("DEBUG")), LogLevels::Debug);
    assert_eq!(get_level_from_env(Some("Error")), LogLevels::Error);
    assert_eq!(get_level_from_env(None), LogLevels::Info);
}

#[test]
fn logger_threshold() {
    let logger = init(None, Some("WARN"));
    assert_eq!(logger.get_log_level(), LogLevels::Warn);
    assert!(logger.accepts(LogLevels::Error));
    assert!(logger.accepts(LogLevels::Warn));
    assert!(!logger.accepts(LogLevels::Info));
    let chosen = init(Some(LogLevels::Trace), Some("error"));
    assert!(chosen.accepts(LogLevels::Trace));
    assert!(Logger::new(LogLevels::Error).accepts(LogLevels::Error));
    assert_eq!(log::warn("w".to_string()).level, LogLevels::Warn);
    assert_eq!(log::error("e".to_string()).message, "e");
}

#[test]
fn diagnostic_messages() {
    assert_eq!(
        Warning::UnsupportedVersion(3).message(""),
        "Header version is 3, but this software only supports version 4"
    );
    assert_eq!(
        Warning::UnsupportedVersion(260).message(""),
        "Header version is 260, but this software only supports version 4"
    );
    assert_eq!(
        Warning::UnknownFrameId(10).message("ZZZZ"),
        "Frame id \"ZZZZ\" is valid, but not a known frame id."
    );
    assert_eq!(
        Warning::InvalidFrameId(10).message("ab!d"),
        "Frame id \"ab!d\" is not a valid frame id."
    );
    assert!(Warning::NotLatin1(10).message("TIT2").starts_with("Data for frame with ID TIT2 is"));
    assert_eq!(
        Warning::HeaderSizeNotSyncsafe.message(""),
        "Header size is not properly represented as a syncsafe integer"
    );
    assert_eq!(
        ParseError::NotAnId3Tag.message(),
        "Invalid header. It does not start with \"ID3\" as its first 3 bytes"
    );
    assert_eq!(
        ParseError::TruncatedFrameData.message(),
        "Failed to read frame data. File ended too soon."
    );
}
