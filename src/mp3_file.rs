//! A whole tagged file: the tag header, its ordered frames, and the audio
//! bytes that follow the tag.
use vstd::prelude::*;
use crate::diagnostics::{ParseError, Warning};
use crate::frame::{
    compact_flags, frame_bytes, frame_end, frame_id_bytes, frame_payload,
    frame_warnings, human_flags, is_canonical_payload, is_canonical_size_field,
    lemma_frame_round_trip, no_frame_flags, parse_frame, starts_frame, utf8_size,
    written_payload, Encoding, FrameView, ID3v2Frame, SizeConvention, TextWriteMode,
};
use crate::header::{frame_size_convention, header_bytes, header_flags_of, header_warnings, parse_header, ID3v2Header};
use crate::text::str_equal;
use crate::utils::{is_syncsafe, syncsafe_bytes};
use vstd::string::{StrSliceExecFns, StringExecFns};

verus! {

/// A tagged file held in memory.
#[derive(Debug)]
pub struct Mp3File {
    header: ID3v2Header,
    frames: Vec<ID3v2Frame>,
    audio: Vec<u8>,
}

/// The mathematical value of a tagged file.
pub struct Mp3FileView {
    pub header: ID3v2Header,
    pub frames: Seq<FrameView>,
    pub audio: Seq<u8>,
}

impl View for Mp3File {
    type V = Mp3FileView;

    closed spec fn view(&self) -> Mp3FileView {
        Mp3FileView {
            header: self.header,
            frames: frame_views(self.frames@),
            audio: self.audio@,
        }
    }
}

/// The views of a sequence of frames.
pub open spec fn frame_views(frames: Seq<ID3v2Frame>) -> Seq<FrameView> {
    frames.map_values(|f: ID3v2Frame| f@)
}

/// Puts frames and warnings read earlier in front of what the rest gives.
pub open spec fn prepend(
    frames: Seq<FrameView>,
    warnings: Seq<Warning>,
    rest: Result<(Seq<FrameView>, int, Seq<Warning>), (ParseError, Seq<Warning>)>,
) -> Result<(Seq<FrameView>, int, Seq<Warning>), (ParseError, Seq<Warning>)> {
    match rest {
        Ok((fs, end, ws)) => Ok((frames + fs, end, warnings + ws)),
        Err((e, ws)) => Err((e, warnings + ws)),
    }
}

/// The frames from `pos` on, where they end, and the warnings they give; on
/// a fatal error, the error and the warnings found before it.
pub open spec fn parse_frames(b: Seq<u8>, pos: int, conv: SizeConvention) -> Result<(Seq<FrameView>, int, Seq<Warning>), (ParseError, Seq<Warning>)>
    decreases b.len() - pos,
{
    if !starts_frame(b, pos) {
        Ok((seq![], pos, seq![]))
    } else {
        match parse_frame(b, pos, conv) {
            Err(e) => Err((e, frame_warnings(b, pos, conv))),
            Ok((f, next)) => prepend(
                seq![f],
                frame_warnings(b, pos, conv),
                parse_frames(b, next, conv),
            ),
        }
    }
}

proof fn lemma_prepend_twice(
    f1: Seq<FrameView>,
    w1: Seq<Warning>,
    f2: Seq<FrameView>,
    w2: Seq<Warning>,
    rest: Result<(Seq<FrameView>, int, Seq<Warning>), (ParseError, Seq<Warning>)>,
)
    ensures
        prepend(f1, w1, prepend(f2, w2, rest)) == prepend(f1 + f2, w1 + w2, rest),
{
    match rest {
        Ok((fs, end, ws)) => {
            assert(f1 + (f2 + fs) =~= (f1 + f2) + fs);
            assert(w1 + (w2 + ws) =~= (w1 + w2) + ws);
        },
        Err((_, ws)) => {
            assert(w1 + (w2 + ws) =~= (w1 + w2) + ws);
        },
    }
}

/// The file that `b` holds, or the fatal error that reading it meets, with
/// the warnings that reading gives up to its end or to that error.
pub open spec fn parse_file(b: Seq<u8>) -> (Result<Mp3FileView, ParseError>, Seq<Warning>) {
    match parse_header(b) {
        Err(e) => (Err(e), header_warnings(b)),
        Ok((h, start)) => match parse_frames(b, start, frame_size_convention(h.version)) {
            Err((e, ws)) => (Err(e), header_warnings(b) + ws),
            Ok((fs, end, ws)) => (
                Ok(
                    Mp3FileView { header: h, frames: fs, audio: b.subrange(end, b.len() as int) },
                ),
                header_warnings(b) + ws,
            ),
        },
    }
}

/// How many of the frames have the ID.
pub open spec fn count_id(frames: Seq<FrameView>, id: Seq<char>) -> nat
    decreases frames.len(),
{
    if frames.len() == 0 {
        0
    } else {
        count_id(frames.drop_last(), id) + if frames.last().id == id {
            1nat
        } else {
            0nat
        }
    }
}

/// Whether position `i` holds the frame with the ID that has `k` such frames
/// before it: its occurrence index `k`, counted from 0.
pub open spec fn is_occurrence(frames: Seq<FrameView>, id: Seq<char>, k: int, i: int) -> bool {
    0 <= i < frames.len() && frames[i].id == id && count_id(frames.take(i), id) == k
}

/// The position of the frame with the ID and occurrence index `k`.
pub open spec fn occurrence_position(frames: Seq<FrameView>, id: Seq<char>, k: int) -> int {
    choose|i: int| is_occurrence(frames, id, k, i)
}

/// A frame after its text is replaced.
pub open spec fn edited_frame(f: FrameView, data: Seq<char>) -> FrameView {
    FrameView { size: utf8_size(data), data, ..f }
}

/// A frame made from user input.
pub open spec fn user_frame(id: Seq<char>, data: Seq<char>) -> FrameView {
    FrameView {
        flags: no_frame_flags(),
        size: utf8_size(data),
        id,
        data,
        encoding: Encoding::Latin1,
    }
}

/// One line of the listing: ID, the flags when asked for, and the text.
pub open spec fn frame_line(f: FrameView, show_flags: bool, human_readable: bool) -> Seq<char> {
    if show_flags {
        let flags = if human_readable {
            human_flags(f.flags)
        } else {
            compact_flags(f.flags)
        };
        f.id + " "@ + (if flags.len() == 0 {
            flags
        } else {
            flags + " "@
        }) + f.data
    } else {
        f.id + " "@ + f.data
    }
}

/// The lines of the frames joined by newlines.
pub open spec fn frame_lines(frames: Seq<FrameView>, show_flags: bool, human_readable: bool) -> Seq<
    char,
>
    decreases frames.len(),
{
    if frames.len() <= 1 {
        if frames.len() == 0 {
            seq![]
        } else {
            frame_line(frames[0], show_flags, human_readable)
        }
    } else {
        frame_lines(frames.drop_last(), show_flags, human_readable) + "\n"@ + frame_line(
            frames.last(),
            show_flags,
            human_readable,
        )
    }
}

/// The listing of a file's frames, or a line saying there are none.
pub open spec fn render(frames: Seq<FrameView>, show_flags: bool, human_readable: bool) -> Seq<
    char,
> {
    if frames.len() == 0 {
        "No frames in file."@
    } else {
        frame_lines(frames, show_flags, human_readable)
    }
}

/// The total size of the frames: ten header bytes and the payload of each.
pub open spec fn frames_size(frames: Seq<FrameView>, mode: TextWriteMode) -> int
    decreases frames.len(),
{
    if frames.len() == 0 {
        0
    } else {
        10 + written_payload(frames[0], mode).len() + frames_size(frames.drop_first(), mode)
    }
}

/// What the extended header adds to the tag size.
pub open spec fn extended_header_allowance(h: ID3v2Header) -> int {
    if h.flags.has_extended_header {
        10
    } else {
        0
    }
}

/// The tag size that a header states for a file.
pub open spec fn tag_size(v: Mp3FileView, mode: TextWriteMode) -> int {
    extended_header_allowance(v.header) + frames_size(v.frames, mode)
}

/// The largest tag size plus one: a syncsafe integer holds 28 bits.
pub const TAG_SIZE_LIMIT: usize = 0x1000_0000;

/// The bytes of the frames in order; none when one of them has none.
pub open spec fn frames_region(
    frames: Seq<FrameView>,
    conv: SizeConvention,
    mode: TextWriteMode,
) -> Option<Seq<u8>>
    decreases frames.len(),
{
    if frames.len() == 0 {
        Some(seq![])
    } else {
        match (frame_bytes(frames[0], conv, mode), frames_region(frames.drop_first(), conv, mode)) {
            (Some(x), Some(rest)) => Some(x + rest),
            _ => None,
        }
    }
}

/// The bytes of a whole file: header, frames and audio. There are none when
/// the tag size does not fit in 28 bits or a frame cannot be written.
pub open spec fn file_bytes(v: Mp3FileView, mode: TextWriteMode) -> Option<Seq<u8>> {
    let size = tag_size(v, mode);
    if size < TAG_SIZE_LIMIT {
        match frames_region(v.frames, frame_size_convention(v.header.version), mode) {
            Some(r) => Some(header_bytes(v.header, size as u32) + r + v.audio),
            None => None,
        }
    } else {
        None
    }
}

proof fn lemma_frames_size_nonnegative(frames: Seq<FrameView>, mode: TextWriteMode)
    ensures
        frames_size(frames, mode) >= 0,
    decreases frames.len(),
{
    if frames.len() > 0 {
        lemma_frames_size_nonnegative(frames.drop_first(), mode);
    }
}

fn frame_line_text(frame: &ID3v2Frame, show_flags: bool, human_readable: bool) -> (r: String)
    ensures
        r@ == frame_line(frame@, show_flags, human_readable),
{
    let mut out = frame.format_id();
    out.append(" ");
    if show_flags {
        let flags = frame.format_flags(human_readable);
        if flags.as_str().unicode_len() != 0 {
            out.append(flags.as_str());
            out.append(" ");
        }
    }
    out.append(frame.data.as_str());
    out
}

impl Mp3File {
    /// Reads a tagged file: the header, then frames for as long as the next
    /// four bytes look like a frame ID; what follows is kept as the audio.
    /// The warnings it gives are appended to `warnings`, also those found
    /// before a fatal error.
    pub fn from_bytes(bytes: &[u8], warnings: &mut Vec<Warning>) -> (r: Result<
        Mp3File,
        ParseError,
    >)
        ensures
            match parse_file(bytes@).0 {
                Ok(v) => r matches Ok(file) && file@ == v,
                Err(err) => r matches Err(e) && e == err,
            },
            final(warnings)@ == old(warnings)@ + parse_file(bytes@).1,
    {
        let ghost b = bytes@;
        let ghost start_warnings = warnings@;
        let (header, start) = match ID3v2Header::from_read_file(bytes, warnings) {
            Ok(x) => x,
            Err(e) => return Err(e),
        };
        let conv = header.frame_size_convention();
        let mut frames: Vec<ID3v2Frame> = Vec::new();
        let mut frame_warnings: Vec<Warning> = Vec::new();
        let mut pos = start;
        assert(prepend(seq![], seq![], parse_frames(b, start as int, conv)) =~= parse_frames(
            b,
            start as int,
            conv,
        )) by {
            match parse_frames(b, start as int, conv) {
                Ok((fs, end, ws)) => {
                    assert(Seq::<FrameView>::empty() + fs =~= fs);
                    assert(Seq::<Warning>::empty() + ws =~= ws);
                },
                Err((_, ws)) => {
                    assert(Seq::<Warning>::empty() + ws =~= ws);
                },
            }
        }
        while ID3v2Frame::has_new_frame(bytes, pos)
            invariant
                b == bytes@,
                parse_header(b) == Ok::<(ID3v2Header, int), ParseError>((header, start as int)),
                conv == frame_size_convention(header.version),
                start_warnings == old(warnings)@,
                warnings@ == start_warnings + header_warnings(b),
                start <= pos <= b.len(),
                parse_frames(b, start as int, conv) == prepend(
                    frame_views(frames@),
                    frame_warnings@,
                    parse_frames(b, pos as int, conv),
                ),
            decreases b.len() - pos,
        {
            let ghost before = frame_warnings@;
            let ghost old_frames = frame_views(frames@);
            let (frame, next) = match ID3v2Frame::from_read_file(bytes, pos, conv, &mut frame_warnings) {
                Ok(x) => x,
                Err(e) => {
                    let ghost fw = frame_warnings@;
                    warnings.append(&mut frame_warnings);
                    assert(fw =~= before + crate::frame::frame_warnings(b, pos as int, conv));
                    assert(parse_frames(b, pos as int, conv) matches Err((e2, ws)) && e2 == e && ws
                        == crate::frame::frame_warnings(b, pos as int, conv));
                    assert(parse_frames(b, start as int, conv) matches Err((e3, ws)) && e3 == e
                        && ws == fw);
                    assert(parse_file(b).1 == header_warnings(b) + fw);
                    assert(warnings@ =~= start_warnings + (header_warnings(b) + fw));
                    return Err(e);
                },
            };
            frames.push(frame);
            assert(frame_views(frames@) =~= old_frames + seq![frame@]);
            proof {
                lemma_prepend_twice(
                    old_frames,
                    before,
                    seq![frame@],
                    crate::frame::frame_warnings(b, pos as int, conv),
                    parse_frames(b, next as int, conv),
                );
            }
            pos = next;
        }
        let mut audio: Vec<u8> = Vec::new();
        let mut i: usize = pos;
        while i < bytes.len()
            invariant
                b == bytes@,
                pos <= i <= b.len(),
                audio@ =~= b.subrange(pos as int, i as int),
            decreases b.len() - i,
        {
            audio.push(bytes[i]);
            i = i + 1;
            assert(audio@ =~= b.subrange(pos as int, i as int));
        }
        let ghost fw = frame_warnings@;
        warnings.append(&mut frame_warnings);
        assert(frame_views(frames@) + seq![] =~= frame_views(frames@));
        assert(fw + seq![] =~= fw);
        assert(warnings@ =~= start_warnings + (header_warnings(b) + fw));
        Ok(Mp3File { header, frames, audio })
    }

    /// The tag size to state in the header: ten bytes for each frame's
    /// header, each frame's payload as `mode` writes it, and ten for an
    /// extended header. None when it does not fit in 28 bits.
    pub fn calculate_id3v2_size(&self, mode: TextWriteMode) -> (r: Option<u32>)
        ensures
            r matches Some(n) ==> n == tag_size(self@, mode) && n < TAG_SIZE_LIMIT,
            r is None ==> tag_size(self@, mode) >= TAG_SIZE_LIMIT,
    {
        let ghost fs = self@.frames;
        let n = self.frames.len();
        let mut total: usize = if self.header.has_extended_header() {
            10
        } else {
            0
        };
        let mut i: usize = 0;
        assert(fs.subrange(0, n as int) =~= fs);
        while i < n
            invariant
                fs == frame_views(self.frames@),
                n == fs.len(),
                i <= n,
                total < TAG_SIZE_LIMIT,
                total + frames_size(fs.subrange(i as int, n as int), mode) == tag_size(self@, mode),
            decreases n - i,
        {
            let len = self.frames[i].payload_bytes(mode).len();
            assert(fs.subrange(i as int, n as int).drop_first() =~= fs.subrange(i + 1, n as int));
            proof {
                lemma_frames_size_nonnegative(fs.subrange(i + 1, n as int), mode);
            }
            if total >= TAG_SIZE_LIMIT - 10 || len >= TAG_SIZE_LIMIT - 10 - total {
                return None;
            }
            total = total + 10 + len;
            i = i + 1;
        }
        Some(total as u32)
    }

    /// The bytes of the whole file to write: the header stating the new tag size, the
    /// frames in order with their text written as `mode` says, then the audio
    /// bytes unchanged. None when the tag size does not fit in 28 bits or a
    /// frame cannot be written.
    pub fn write_to_file(&self, mode: TextWriteMode) -> (r: Option<Vec<u8>>)
        ensures
            r matches Some(v) ==> file_bytes(self@, mode) == Some(v@),
            r is None ==> file_bytes(self@, mode) is None,
    {
        let ghost fs = self@.frames;
        let conv = self.header.frame_size_convention();
        let size = match self.calculate_id3v2_size(mode) {
            Some(s) => s,
            None => return None,
        };
        let mut out = self.header.write_to_file(size);
        let ghost head = out@;
        let ghost region: Seq<u8> = seq![];
        let n = self.frames.len();
        let mut i: usize = 0;
        assert(fs.subrange(0, n as int) =~= fs);
        assert(frames_region(fs, conv, mode) == match frames_region(fs.subrange(0, n as int), conv, mode) {
            Some(rest) => Some(region + rest),
            None => None::<Seq<u8>>,
        }) by {
            match frames_region(fs, conv, mode) {
                Some(rest) => assert(region + rest =~= rest),
                None => {},
            }
        }
        while i < n
            invariant
                fs == frame_views(self.frames@),
                n == fs.len(),
                i <= n,
                conv == frame_size_convention(self@.header.version),
                out@ == head + region,
                frames_region(fs, conv, mode) == match frames_region(
                    fs.subrange(i as int, n as int),
                    conv,
                    mode,
                ) {
                    Some(rest) => Some(region + rest),
                    None => None::<Seq<u8>>,
                },
            decreases n - i,
        {
            assert(fs.subrange(i as int, n as int).drop_first() =~= fs.subrange(i + 1, n as int));
            let mut bytes = match self.frames[i].write_to_file(conv, mode) {
                Some(v) => v,
                None => return None,
            };
            proof {
                match frames_region(fs.subrange(i + 1, n as int), conv, mode) {
                    Some(rest) => assert(region + (bytes@ + rest) =~= (region + bytes@) + rest),
                    None => {},
                }
                region = region + bytes@;
            }
            out.append(&mut bytes);
            i = i + 1;
        }
        assert(fs.subrange(n as int, n as int) =~= Seq::<FrameView>::empty());
        assert(region + seq![] =~= region);
        let ghost tagged = out@;
        let mut k: usize = 0;
        while k < self.audio.len()
            invariant
                k <= self.audio@.len(),
                out@ =~= tagged + self.audio@.take(k as int),
            decreases self.audio@.len() - k,
        {
            out.push(self.audio[k]);
            k = k + 1;
            assert(out@ =~= tagged + self.audio@.take(k as int));
        }
        assert(self.audio@.take(self.audio@.len() as int) =~= self.audio@);
        Some(out)
    }

    /// The tag header as read.
    pub fn header(&self) -> (r: ID3v2Header)
        ensures
            r == self@.header,
    {
        self.header
    }

    /// How many frames the tag holds.
    pub fn frame_count(&self) -> (r: usize)
        ensures
            r == self@.frames.len(),
    {
        self.frames.len()
    }

    /// The frame at a position, in file order.
    pub fn frame(&self, index: usize) -> (r: &ID3v2Frame)
        requires
            index < self@.frames.len(),
        ensures
            r@ == self@.frames[index as int],
    {
        &self.frames[index]
    }

    /// The audio bytes that follow the tag.
    pub fn audio(&self) -> (r: &Vec<u8>)
        ensures
            r@ == self@.audio,
    {
        &self.audio
    }

    /// Finds the position of the frame with ID `frame_id` and occurrence
    /// index `frame_index` (from 0); when there is none, the error holds how
    /// many frames have that ID.
    pub fn find_index_of_frame_with_id(&self, frame_id: &str, frame_index: u32) -> (r: Result<
        usize,
        u32,
    >)
        ensures
            r is Ok <==> count_id(self@.frames, frame_id@) > frame_index,
            r matches Ok(i) ==> is_occurrence(self@.frames, frame_id@, frame_index as int, i as int),
            r matches Err(n) ==> n == count_id(self@.frames, frame_id@),
    {
        let ghost fs = self@.frames;
        let mut found: u32 = 0;
        let mut i: usize = 0;
        while i < self.frames.len()
            invariant
                fs == self@.frames,
                fs == frame_views(self.frames@),
                i <= fs.len(),
                found == count_id(fs.take(i as int), frame_id@),
                found <= frame_index,
            decreases fs.len() - i,
        {
            assert(fs.take(i + 1).drop_last() =~= fs.take(i as int));
            if str_equal(self.frames[i].id.as_str(), frame_id) {
                if found == frame_index {
                    proof {
                        assert(fs[i as int].id == frame_id@);
                        assert(fs.take(i + 1).last() == fs[i as int]);
                        lemma_count_prefix_le(fs, frame_id@, i + 1, fs.len() as int);
                        assert(fs.take(fs.len() as int) =~= fs);
                    }
                    return Ok(i);
                }
                found = found + 1;
            }
            i = i + 1;
        }
        assert(fs.take(fs.len() as int) =~= fs);
        Err(found)
    }

    /// Removes the frame with ID `frame_id` and occurrence index
    /// `user_frame_index`; the later frames with that ID move down one
    /// occurrence. When there is no such frame, nothing changes and the error
    /// holds how many frames have that ID.
    pub fn remove_frame(&mut self, frame_id: &str, user_frame_index: u32) -> (r: Result<(), u32>)
        ensures
            r is Ok <==> count_id(old(self)@.frames, frame_id@) > user_frame_index,
            r is Ok ==> final(self)@ == (Mp3FileView {
                frames: old(self)@.frames.remove(
                    occurrence_position(old(self)@.frames, frame_id@, user_frame_index as int),
                ),
                ..old(self)@
            }),
            r matches Err(n) ==> n == count_id(old(self)@.frames, frame_id@) && final(self)@
                == old(self)@,
    {
        match self.find_index_of_frame_with_id(frame_id, user_frame_index) {
            Ok(index) => {
                proof {
                    lemma_occurrence_unique(self@.frames, frame_id@, user_frame_index as int, index as int);
                }
                let ghost before = self.frames@;
                self.frames.remove(index);
                assert(frame_views(self.frames@) =~= frame_views(before).remove(index as int));
                Ok(())
            },
            Err(n) => Err(n),
        }
    }

    /// Replaces the text of the frame with ID `frame_id` and occurrence
    /// index `user_frame_index`. When there is no such frame, nothing changes
    /// and the error holds how many frames have that ID.
    pub fn edit_frame(&mut self, frame_id: &str, new_data: String, user_frame_index: u32) -> (r:
        Result<(), u32>)
        ensures
            r is Ok <==> count_id(old(self)@.frames, frame_id@) > user_frame_index,
            r is Ok ==> {
                let i = occurrence_position(old(self)@.frames, frame_id@, user_frame_index as int);
                final(self)@ == Mp3FileView {
                    frames: old(self)@.frames.update(
                        i,
                        edited_frame(old(self)@.frames[i], new_data@),
                    ),
                    ..old(self)@
                }
            },
            r matches Err(n) ==> n == count_id(old(self)@.frames, frame_id@) && final(self)@
                == old(self)@,
    {
        match self.find_index_of_frame_with_id(frame_id, user_frame_index) {
            Ok(index) => {
                proof {
                    lemma_occurrence_unique(self@.frames, frame_id@, user_frame_index as int, index as int);
                }
                let ghost before = self.frames@;
                let mut frame = self.frames.remove(index);
                frame.edit_data(new_data);
                self.frames.insert(index, frame);
                assert(frame_views(self.frames@) =~= frame_views(before).update(
                    index as int,
                    edited_frame(before[index as int]@, new_data@),
                ));
                Ok(())
            },
            Err(n) => Err(n),
        }
    }

    /// Appends a frame made from an ID and a text.
    pub fn add_frame(&mut self, id: String, data: String)
        ensures
            final(self)@ == (Mp3FileView {
                frames: old(self)@.frames.push(user_frame(id@, data@)),
                ..old(self)@
            }),
    {
        let frame = ID3v2Frame::from_user_input(id, data);
        let ghost before = self.frames@;
        self.frames.push(frame);
        assert(frame_views(self.frames@) =~= frame_views(before).push(frame@));
    }

    /// Lists the frames one per line: ID, the flags when asked for, and the
    /// text; a file without frames gives a line that says so.
    pub fn format_frames(&self, frame_flags: bool, human_readable: bool) -> (r: String)
        ensures
            r@ == render(self@.frames, frame_flags, human_readable),
    {
        let ghost fs = self@.frames;
        if self.frames.len() == 0 {
            return String::from_str("No frames in file.");
        }
        let mut out = String::new();
        let mut i: usize = 0;
        while i < self.frames.len()
            invariant
                fs == frame_views(self.frames@),
                i <= fs.len(),
                out@ == frame_lines(fs.take(i as int), frame_flags, human_readable),
            decreases fs.len() - i,
        {
            let line = frame_line_text(&self.frames[i], frame_flags, human_readable);
            if i > 0 {
                out.append("\n");
            }
            out.append(line.as_str());
            assert(fs.take(i + 1).drop_last() =~= fs.take(i as int));
            i = i + 1;
        }
        assert(fs.take(fs.len() as int) =~= fs);
        out
    }
}

/// Counting over a shorter prefix finds no more frames.
proof fn lemma_count_prefix_le(frames: Seq<FrameView>, id: Seq<char>, p: int, q: int)
    requires
        0 <= p <= q <= frames.len(),
    ensures
        count_id(frames.take(p), id) <= count_id(frames.take(q), id),
    decreases q - p,
{
    if p < q {
        lemma_count_prefix_le(frames, id, p, q - 1);
        assert(frames.take(q).drop_last() =~= frames.take(q - 1));
    }
}

/// At most one position holds a given occurrence of an ID.
pub proof fn lemma_occurrence_unique(frames: Seq<FrameView>, id: Seq<char>, k: int, i: int)
    requires
        is_occurrence(frames, id, k, i),
    ensures
        occurrence_position(frames, id, k) == i,
        forall|j: int| is_occurrence(frames, id, k, j) ==> j == i,
{
    assert forall|j: int| is_occurrence(frames, id, k, j) implies j == i by {
        if j < i {
            lemma_count_prefix_le(frames, id, j + 1, i);
            assert(frames.take(j + 1).drop_last() =~= frames.take(j));
        } else if i < j {
            lemma_count_prefix_le(frames, id, i + 1, j);
            assert(frames.take(i + 1).drop_last() =~= frames.take(i));
        }
    }
}

/// Removing a frame takes it out of the count of its ID.
proof fn lemma_count_remove(s: Seq<FrameView>, id: Seq<char>, i: int)
    requires
        0 <= i < s.len(),
    ensures
        count_id(s.remove(i), id) + (if s[i].id == id {
            1int
        } else {
            0int
        }) == count_id(s, id),
    decreases s.len(),
{
    if i == s.len() - 1 {
        assert(s.remove(i) =~= s.drop_last());
    } else {
        lemma_count_remove(s.drop_last(), id, i);
        assert(s.remove(i).drop_last() =~= s.drop_last().remove(i));
        assert(s.remove(i).last() == s.last());
    }
}

/// When fewer than `count_id` occurrences come before it, the occurrence
/// index `k` of an ID is held by some position.
pub proof fn lemma_occurrence_exists(frames: Seq<FrameView>, id: Seq<char>, k: int)
    requires
        0 <= k < count_id(frames, id),
    ensures
        exists|i: int| is_occurrence(frames, id, k, i),
        is_occurrence(frames, id, k, occurrence_position(frames, id, k)),
    decreases frames.len(),
{
    let init = frames.drop_last();
    if count_id(init, id) > k {
        lemma_occurrence_exists(init, id, k);
        let i = occurrence_position(init, id, k);
        assert(frames.take(i) =~= init.take(i));
        assert(is_occurrence(frames, id, k, i));
    } else {
        let i = frames.len() - 1;
        assert(frames.take(i) =~= init);
        assert(is_occurrence(frames, id, k, i));
    }
}

/// Removing the frame with occurrence index `k` of an ID leaves one such
/// frame fewer; frames with a smaller occurrence index keep theirs, and every
/// later one moves down by one, so that occurrence `j` is afterwards the
/// frame that was occurrence `j + 1`.
pub proof fn lemma_remove_renumbers(frames: Seq<FrameView>, id: Seq<char>, k: int)
    requires
        0 <= k < count_id(frames, id),
    ensures
        ({
            let i = occurrence_position(frames, id, k);
            let after = frames.remove(i);
            &&& count_id(after, id) + 1 == count_id(frames, id)
            &&& forall|j: int|
                0 <= j < k ==> #[trigger] after[occurrence_position(after, id, j)]
                    == frames[occurrence_position(frames, id, j)]
            &&& forall|j: int|
                k <= j && j + 1 < count_id(frames, id) ==> #[trigger] after[occurrence_position(
                    after,
                    id,
                    j,
                )] == frames[occurrence_position(frames, id, j + 1)]
        }),
{
    let i = occurrence_position(frames, id, k);
    lemma_occurrence_exists(frames, id, k);
    let after = frames.remove(i);
    lemma_count_remove(frames, id, i);
    assert(frames.take(i + 1).drop_last() =~= frames.take(i));
    assert forall|j: int| 0 <= j < k implies #[trigger] after[occurrence_position(after, id, j)]
        == frames[occurrence_position(frames, id, j)] by {
        lemma_occurrence_exists(frames, id, j);
        let q = occurrence_position(frames, id, j);
        if q > i {
            lemma_count_prefix_le(frames, id, i + 1, q);
        }
        assert(q != i);
        assert(after.take(q) =~= frames.take(q));
        assert(is_occurrence(after, id, j, q));
        lemma_occurrence_unique(after, id, j, q);
    }
    assert forall|j: int| k <= j && j + 1 < count_id(frames, id) implies #[trigger] after[
        occurrence_position(after, id, j)] == frames[occurrence_position(frames, id, j + 1)] by {
        lemma_occurrence_exists(frames, id, j + 1);
        let q = occurrence_position(frames, id, j + 1);
        if q < i {
            lemma_count_prefix_le(frames, id, q + 1, i);
            assert(frames.take(q + 1).drop_last() =~= frames.take(q));
        }
        assert(q != i);
        assert(after.take(q - 1) =~= frames.take(q).remove(i));
        lemma_count_remove(frames.take(q), id, i);
        assert(is_occurrence(after, id, j, q - 1));
        lemma_occurrence_unique(after, id, j, q - 1);
    }
}

/// Whether every frame from `pos` on reads without error, has a size field
/// in the form its convention writes, and has a canonical payload.
pub open spec fn frames_are_canonical(b: Seq<u8>, pos: int, conv: SizeConvention) -> bool
    decreases b.len() - pos,
{
    if !starts_frame(b, pos) {
        true
    } else {
        match parse_frame(b, pos, conv) {
            Err(_) => false,
            Ok((f, next)) => {
                &&& is_canonical_size_field(b, pos, conv)
                &&& is_canonical_payload(frame_payload(b, pos, conv))
                &&& frames_are_canonical(b, next, conv)
            },
        }
    }
}

/// Whether a tagged file is one that saving without edits writes back byte
/// for byte: it has no extended header, its header states in syncsafe form
/// exactly the size of its frames, and its frames are canonical.
pub open spec fn is_canonical_tag(b: Seq<u8>) -> bool {
    match parse_header(b) {
        Err(_) => false,
        Ok((h, start)) => {
            let conv = frame_size_convention(h.version);
            &&& !h.flags.has_extended_header
            &&& is_syncsafe(b.subrange(6, 10))
            &&& frames_are_canonical(b, start, conv)
            &&& match parse_frames(b, start, conv) {
                Ok((_, end, _)) => h.size == end - 10,
                Err(_) => false,
            }
        },
    }
}

proof fn lemma_frames_round_trip(b: Seq<u8>, pos: int, conv: SizeConvention)
    requires
        0 <= pos <= b.len(),
        frames_are_canonical(b, pos, conv),
    ensures
        parse_frames(b, pos, conv) is Ok,
        ({
            let (fs, end, _) = parse_frames(b, pos, conv)->Ok_0;
            &&& pos <= end <= b.len()
            &&& frames_region(fs, conv, TextWriteMode::PreserveEncoding) == Some(b.subrange(pos, end))
            &&& frames_size(fs, TextWriteMode::PreserveEncoding) == end - pos
        }),
    decreases b.len() - pos,
{
    if starts_frame(b, pos) {
        let (f, next) = parse_frame(b, pos, conv)->Ok_0;
        lemma_frame_round_trip(b, pos, conv);
        lemma_frames_round_trip(b, next, conv);
        let (rest, end, _) = parse_frames(b, next, conv)->Ok_0;
        let (fs, _, _) = parse_frames(b, pos, conv)->Ok_0;
        assert(fs =~= seq![f] + rest);
        assert(fs[0] == f);
        assert(fs.drop_first() =~= rest);
        assert(b.subrange(pos, end) =~= b.subrange(pos, next) + b.subrange(next, end));
    } else {
        assert(b.subrange(pos, pos) =~= Seq::<u8>::empty());
    }
}

#[verifier::rlimit(40)]
proof fn lemma_written_bytes(b: Seq<u8>)
    requires
        is_canonical_tag(b),
    ensures
        parse_file(b).0 is Ok,
        file_bytes(parse_file(b).0->Ok_0, TextWriteMode::PreserveEncoding) == Some(b),
{
    let (h, start) = parse_header(b)->Ok_0;
    let conv = frame_size_convention(h.version);
    lemma_frames_round_trip(b, start, conv);
    let (fs, end, _) = parse_frames(b, start, conv)->Ok_0;
    let v = parse_file(b).0->Ok_0;
    assert(v.frames == fs);
    crate::utils::lemma_syncsafe_bytes_round_trip(b.subrange(6, 10));
    assert(tag_size(v, TextWriteMode::PreserveEncoding) == h.size);
    let (b3, b4) = (b[3], b[4]);
    assert(((b4 as u16) * 256 + b3 as u16) % 256 == b3 as u16 && ((b4 as u16) * 256 + b3 as u16)
        / 256 == b4 as u16) by (bit_vector);
    assert(header_bytes(h, h.size) =~= b.subrange(0, 10));
    assert(b =~= b.subrange(0, 10) + b.subrange(10, end) + b.subrange(end, b.len() as int));
}


/// Reading a canonical tagged file and saving it without edits gives the
/// same bytes back: header, frames and audio. Reading those bytes again
/// gives the same frames, IDs, flags and texts.
pub proof fn lemma_round_trip(b: Seq<u8>)
    requires
        is_canonical_tag(b),
    ensures
        parse_file(b).0 is Ok,
        file_bytes(parse_file(b).0->Ok_0, TextWriteMode::PreserveEncoding) == Some(b),
        match file_bytes(parse_file(b).0->Ok_0, TextWriteMode::PreserveEncoding) {
            Some(written) => parse_file(written) == parse_file(b),
            None => false,
        },
{
    lemma_written_bytes(b);
}

/// Reading frames from `pos` on looks only at the bytes from `pos` on.
proof fn lemma_parse_frames_same_tail(
    b: Seq<u8>,
    w: Seq<u8>,
    from: int,
    pos: int,
    conv: SizeConvention,
)
    requires
        b.len() == w.len(),
        0 <= from <= pos,
        forall|i: int| from <= i < b.len() ==> b[i] == w[i],
    ensures
        parse_frames(b, pos, conv) == parse_frames(w, pos, conv),
    decreases b.len() - pos,
{
    assert(starts_frame(b, pos) == starts_frame(w, pos)) by {
        if pos + 4 <= b.len() {
            assert(forall|i: int| 0 <= i < 4 ==> #[trigger] b[pos + i] == w[pos + i]);
        }
    }
    if starts_frame(b, pos) {
        if pos + 10 <= b.len() {
            assert(frame_id_bytes(b, pos) =~= frame_id_bytes(w, pos));
            assert(b.subrange(pos + 4, pos + 8) =~= w.subrange(pos + 4, pos + 8));
            assert(b[pos + 8] == w[pos + 8] && b[pos + 9] == w[pos + 9]);
            if frame_end(b, pos, conv) <= b.len() {
                assert(frame_payload(b, pos, conv) =~= frame_payload(w, pos, conv));
            }
        }
        assert(parse_frame(b, pos, conv) == parse_frame(w, pos, conv));
        assert(frame_warnings(b, pos, conv) == frame_warnings(w, pos, conv));
        if parse_frame(b, pos, conv) is Ok {
            let next = parse_frame(b, pos, conv)->Ok_0.1;
            lemma_parse_frames_same_tail(b, w, from, next, conv);
        }
    }
}

/// A header written with a size below 2^28 and no extended header reads
/// back with the same version and flags and that size, whatever follows it.
proof fn lemma_written_header(h: ID3v2Header, size: u32, rest: Seq<u8>)
    requires
        size < TAG_SIZE_LIMIT,
        h.flags == header_flags_of(h.flags.raw_flags_byte),
        !h.flags.has_extended_header,
    ensures
        parse_header(header_bytes(h, size) + rest) == Ok::<(ID3v2Header, int), ParseError>(
            (ID3v2Header { flags: h.flags, size, version: h.version }, 10),
        ),
{
    let w = header_bytes(h, size) + rest;
    crate::utils::lemma_syncsafe_round_trip(size);
    let ver = h.version;
    assert(((((ver / 256) as u8) as u16) * 256 + (((ver % 256) as u8) as u16)) as u16 == ver)
        by (bit_vector);
    assert(w.subrange(6, 10) =~= syncsafe_bytes(size));
    assert(w[5] == h.flags.raw_flags_byte);
}

/// Saving a tagged file without edits and reading the saved bytes again
/// gives the same frames (IDs, flags, texts) and the same audio, when the
/// tag has no extended header and its frames are canonical. This holds also
/// for a tag that was padded: the new header states the size of the frames
/// alone. Saving fails only when that size does not fit in 28 bits.
#[verifier::rlimit(40)]
pub proof fn lemma_saved_tag_reads_back(b: Seq<u8>)
    requires
        parse_file(b).0 matches Ok(v) && !v.header.flags.has_extended_header
            && frames_are_canonical(b, 10, frame_size_convention(v.header.version)),
    ensures
        ({
            let v = parse_file(b).0->Ok_0;
            match file_bytes(v, TextWriteMode::PreserveEncoding) {
                Some(written) => parse_file(written).0 matches Ok(v2) && v2.frames == v.frames
                    && v2.audio == v.audio && v2.header.version == v.header.version
                    && v2.header.flags == v.header.flags && v2.header.size == tag_size(
                    v,
                    TextWriteMode::PreserveEncoding,
                ),
                None => tag_size(v, TextWriteMode::PreserveEncoding) >= TAG_SIZE_LIMIT,
            }
        }),
{
    let v = parse_file(b).0->Ok_0;
    let h = v.header;
    let conv = frame_size_convention(h.version);
    assert(parse_header(b) == Ok::<(ID3v2Header, int), ParseError>((h, 10)));
    lemma_frames_round_trip(b, 10, conv);
    let (fs, end, _) = parse_frames(b, 10, conv)->Ok_0;
    assert(v.frames == fs);
    let size = tag_size(v, TextWriteMode::PreserveEncoding);
    assert(size == end - 10);
    if size < TAG_SIZE_LIMIT {
        let written = header_bytes(h, size as u32) + b.subrange(10, end) + b.subrange(
            end,
            b.len() as int,
        );
        assert(file_bytes(v, TextWriteMode::PreserveEncoding) == Some(written));
        assert(written =~= header_bytes(h, size as u32) + b.subrange(10, b.len() as int));
        assert forall|i: int| 10 <= i < b.len() implies b[i] == written[i] by {}
        lemma_parse_frames_same_tail(b, written, 10, 10, conv);
        lemma_written_header(h, size as u32, b.subrange(10, b.len() as int));
        let h2 = ID3v2Header { flags: h.flags, size: size as u32, version: h.version };
        assert(parse_header(written) == Ok::<(ID3v2Header, int), ParseError>((h2, 10)));
        assert(written.subrange(end, written.len() as int) =~= b.subrange(end, b.len() as int));
        assert(parse_file(written).0 == Ok::<Mp3FileView, ParseError>(
            Mp3FileView { header: h2, frames: fs, audio: v.audio },
        ));
    }
}

} // verus!
