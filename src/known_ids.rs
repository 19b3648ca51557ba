//! The table of frame IDs that the ID3v2.3 and ID3v2.4 standards define.
use vstd::prelude::*;

verus! {

/// How many frame IDs the table holds.
pub const KNOWN_ID_COUNT: usize = 92;

/// Each frame ID that the standards define, with a description of what such a
/// frame holds.
pub const KNOWN_ID3V2_IDS: [(&'static str, &'static str); 92] = [
    ("AENC", "Audio encryption"),
    ("ASPI", "Audio seek point index (v4 only)"),
    ("APIC", "Attached picture"),
    ("COMM", "Comments"),
    ("COMR", "Commercial frame"),
    ("ENCR", "Encryption method registration"),
    ("EQUA", "Equalization (v3)"),
    ("EQU2", "Equalization (v4)"),
    ("ETCO", "Event timing codes"),
    ("GEOB", "General encapsulated object"),
    ("GRID", "Group identification registration"),
    ("LINK", "Linked information"),
    ("MCDI", "Music CD identifier"),
    ("MLLT", "MPEG location lookup table"),
    ("OWNE", "Ownership frame"),
    ("PRIV", "Private frame"),
    ("PCNT", "Play counter"),
    ("POPM", "Popularimeter"),
    ("POSS", "Position synchronisation frame"),
    ("RBUF", "Recommended buffer size"),
    ("RVAD", "Relative volume adjustment (v3)"),
    ("RVA2", "Relative volume adjustment (v4)"),
    ("RVRB", "Reverb"),
    ("SEEK", "Seek frame (v4 only)"),
    ("SIGN", "Signature frame (v4 only)"),
    ("SYLT", "Synchronized lyric/text"),
    ("SYTC", "Synchronized tempo codes"),
    ("TBPM", "Beats per minute (BPM)"),
    ("TKEY", "Initial key"),
    ("TCON", "Content type"),
    ("TMOO", "Mood (v4 only)"),
    ("TCOP", "Copyright message"),
    ("TDRC", "Recording time (V4 only)"),
    ("TDAT", "Date (v3) (replaced by TDRC in V4)"),
    ("TRDA", "Recording dates (v3) (replaced by TDRC in V4)"),
    ("TIME", "Time (v3) (replaced by TDRC in V4)"),
    ("TYER", "Year (v3) (replaced by TDRC in V4)"),
    ("TDRL", "Release time (v4 only)"),
    ("TDTG", "Tagging time (v4 only)"),
    ("TDEN", "Encoding time (v4 only)"),
    ("TENC", "Encoded by"),
    ("TSSE", "Software/Hardware and settings used for encoding"),
    ("TDLY", "Playlist delay"),
    ("TIT1", "Content group description"),
    ("TIT2", "Title/songname/content description"),
    ("TIT3", "Subtitle/Description refinement"),
    ("TALB", "Album/Movie/Show title"),
    ("TLAN", "Language(s)"),
    ("TLEN", "Length"),
    ("TSIZ", "Size (V3 only)"),
    ("TFLT", "File type"),
    ("TMED", "Media type"),
    ("TOWN", "File owner/licensee"),
    ("TPE1", "Lead performer(s)/Soloist(s) (can be separated by \"/\")"),
    ("TPE2", "Band/orchestra/accompaniment"),
    ("TPE3", "Conductor/performer refinement"),
    ("TPE4", "Interpreted, remixed, or otherwise modified by"),
    ("TCOM", "Composer (can be separated by \"/\")"),
    ("TEXT", "Lyricist/Text writer (can be separated by \"/\")"),
    ("IPLS", "Involved people list (v3)"),
    ("TIPL", "Involved people list (v4)"),
    ("TMCL", "Musician credits list (v4 only)"),
    ("TOAL", "Original album/movie/show title"),
    ("TOFN", "Original filename"),
    ("TOLY", "Original lyricist(s)/text writer(s) (can be separated by \"/\")"),
    ("TOPE", "Original artist(s)/performer(s) (can be separated by \"/\")"),
    ("TORY", "Original release year (v3)"),
    ("TDOR", "Original release year (v4)"),
    ("TRCK", "Track number/Position in set"),
    ("TPOS", "Part of a set"),
    ("TSST", "Set subtitle (v4 only)"),
    ("TPRO", "Produced notice (v4 only)"),
    ("TPUB", "Publisher"),
    ("TRSN", "Internet radio station name"),
    ("TRSO", "Internet radio station owner"),
    ("TSOA", "Album sort order (v4 only)"),
    ("TSOP", "Performer sort order (v4 only)"),
    ("TSOT", "Title sort order (v4 only)"),
    ("TSRC", "International Standard Recording Code (ISRC)"),
    ("TXXX", "User defined text information frame"),
    ("UFID", "Unique file identifier"),
    ("USER", "Terms of use"),
    ("USLT", "Unsynchronized lyric/text transcription"),
    ("WCOM", "Commercial information"),
    ("WCOP", "Copyright/Legal information"),
    ("WOAF", "Official audio file webpage"),
    ("WOAR", "Official artist/performer webpage"),
    ("WOAS", "Official audio source webpage"),
    ("WORS", "Official internet radio station homepage"),
    ("WPAY", "Payment"),
    ("WPUB", "Publishers official webpage"),
    ("WXXX", "User defined URL link frame"),
];

} // verus!
