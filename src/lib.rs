//! Reading, editing and rewriting of ID3v2 tags held at the start of MP3 files.
pub mod cli;
pub mod diagnostics;
pub mod frame;
pub mod header;
pub mod known_ids;
pub mod latin1;
pub mod log;
pub mod mp3_file;
pub mod text;
pub mod utf16;
pub mod utils;
