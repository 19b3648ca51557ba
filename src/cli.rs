//! The checks and messages of the command-line front end: frame IDs and the
//! one-based frame indices that users give.
use vstd::prelude::*;
use crate::frame::{is_known_id, is_string_known_id3v2_id, is_string_valid_id3v2_id, is_valid_id};
use crate::log::{error, warn, LogLevels, LogRecord};
use crate::text::{decimal, push_decimal};
use vstd::string::StringExecFns;

verus! {

/// The English ordinal suffix used after a number.
pub open spec fn ordinal_suffix(n: u32) -> Seq<char> {
    if n == 1 {
        "st"@
    } else if n == 2 {
        "nd"@
    } else if n == 3 {
        "rd"@
    } else {
        "th"@
    }
}

/// The message for a frame ID that is not four upper-case letters or digits.
pub open spec fn invalid_id_message(id: Seq<char>) -> Seq<char> {
    "Provided frame id \""@ + id
        + "\" is not valid. It must be a four-character word composed exclusively of numbers or uppercase letters"@
}

/// The message for a well-formed frame ID that is not a known one.
pub open spec fn unknown_id_message(id: Seq<char>) -> Seq<char> {
    "Provided frame id \""@ + id + "\" is not a known id. The operation will still be executed."@
}

/// The message for a frame index of zero.
pub open spec fn zero_index_message() -> Seq<char> {
    "The frame index starts at one, not zero."@
}

/// The message for a one-based `index` past the `found` frames with an ID.
pub open spec fn missing_frame_message(id: Seq<char>, index: u32, found: u32) -> Seq<char> {
    if found == 0 {
        "Error: No frame found with id \""@ + id + "\""@
    } else if found == 1 {
        "There is only 1 frame with id \""@ + id + "\". You tried to remove the "@ + decimal(
            index as nat,
        ) + ordinal_suffix(index)
    } else {
        "There are only "@ + decimal(found as nat) + " frames with id \""@ + id
            + "\". You tried to remove the "@ + decimal(index as nat) + ordinal_suffix(index)
    }
}

pub fn ordinal_numeral(number: u32) -> (r: &'static str)
    ensures
        r@ == ordinal_suffix(number),
{
    match number {
        1 => "st",
        2 => "nd",
        3 => "rd",
        _ => "th",
    }
}

/// Checks a one-based frame index: zero is refused with an error record.
pub fn validate_frame_index(frame_index: u32) -> (r: Result<(), LogRecord>)
    ensures
        r is Ok <==> frame_index != 0,
        r matches Err(rec) ==> rec.level == LogLevels::Error && rec.message@
            == zero_index_message(),
{
    if frame_index == 0 {
        Err(error(String::from_str("The frame index starts at one, not zero.")))
    } else {
        Ok(())
    }
}

/// Checks a frame ID given by a user: a malformed one is refused with an
/// error record; a well-formed one that is not known passes with a warning.
pub fn validate_frame_id(frame_id: &str) -> (r: Result<Option<LogRecord>, LogRecord>)
    ensures
        r is Ok <==> is_valid_id(frame_id@),
        r matches Err(rec) ==> rec.level == LogLevels::Error && rec.message@ == invalid_id_message(
            frame_id@,
        ),
        r matches Ok(w) ==> (w is Some <==> !is_known_id(frame_id@)),
        r matches Ok(Some(rec)) ==> rec.level == LogLevels::Warn && rec.message@
            == unknown_id_message(frame_id@),
{
    if !is_string_valid_id3v2_id(frame_id) {
        let mut m = String::from_str("Provided frame id \"");
        m.append(frame_id);
        m.append(
            "\" is not valid. It must be a four-character word composed exclusively of numbers or uppercase letters",
        );
        return Err(error(m));
    }
    if !is_string_known_id3v2_id(frame_id) {
        let mut m = String::from_str("Provided frame id \"");
        m.append(frame_id);
        m.append("\" is not a known id. The operation will still be executed.");
        return Ok(Some(warn(m)));
    }
    Ok(None)
}

/// The error record for a one-based `index` past the `largest_found_index`
/// frames that have the ID.
pub fn error_no_frame_with_id_found(frame_id: &str, index: u32, largest_found_index: u32) -> (r:
    LogRecord)
    ensures
        r.level == LogLevels::Error,
        r.message@ == missing_frame_message(frame_id@, index, largest_found_index),
{
    let mut m: String;
    if largest_found_index == 0 {
        m = String::from_str("Error: No frame found with id \"");
        m.append(frame_id);
        m.append("\"");
    } else {
        if largest_found_index == 1 {
            m = String::from_str("There is only 1 frame with id \"");
        } else {
            m = String::from_str("There are only ");
            push_decimal(&mut m, largest_found_index);
            m.append(" frames with id \"");
        }
        m.append(frame_id);
        m.append("\". You tried to remove the ");
        push_decimal(&mut m, index);
        m.append(ordinal_numeral(index));
    }
    error(m)
}

} // verus!
