//! Server-sent events, as the upstream streams them.
//!
//! A stream is a run of frames, each ended by an empty line. What counts in a
//! frame are its `data:` lines, which hold one JSON value; the names of events
//! and everything else are passed over. [`SseDecoder`] takes the bytes in whatever
//! chunks they arrive and gives the values in order.

use crate::backend::{ErrorView, SwitchyardError};
use crate::json_text;
use crate::json_text::parse_json;
use crate::text;
use crate::text::{chars_of, concat, starts_with, text_eq, trim};
use serde_json::Value;
use vstd::prelude::*;
use vstd::string::*;

verus! {

/// Whose stream it is, in errors.
pub const PROVIDER: &'static str = "Anthropic";

/// The data that ends a stream.
pub const DONE_MARKER: &'static str = "[DONE]";

/// `std::str::Utf8Error`: why bytes are not UTF-8.
#[verifier::external_type_specification]
#[verifier::external_body]
pub struct ExUtf8Error(std::str::Utf8Error);

/// `std::str::from_utf8`: the text that bytes spell in UTF-8, and an error where
/// they are not UTF-8.
pub assume_specification[ std::str::from_utf8 ](bytes: &[u8]) -> (decoded: Result<
    &str,
    std::str::Utf8Error,
>)
    ensures
        match decoded {
            Ok(spelled) => vstd::utf8::valid_utf8(bytes@) && spelled@ == vstd::utf8::decode_utf8(
                bytes@,
            ),
            Err(_) => !vstd::utf8::valid_utf8(bytes@),
        },
;

/// What a frame holds.
#[derive(Debug, PartialEq)]
pub enum ParsedSseFrame {
    /// A value.
    Json(Value),
    /// The end of the stream.
    Done,
    /// Nothing.
    Empty,
}

/// What reading a frame comes to.
pub enum FrameView {
    /// A value.
    Json(Value),
    /// The end of the stream.
    Done,
    /// Nothing.
    Empty,
    /// An error.
    Failed(ErrorView),
}

/// Where the first line ends: at its line feed, or at the end.
pub open spec fn line_end(text: Seq<char>) -> int
    decreases text.len(),
{
    if text.len() == 0 || text[0] == '\n' {
        0
    } else {
        1 + line_end(text.drop_first())
    }
}

/// The lines of a text, without their line feeds.
pub open spec fn lines_of(text: Seq<char>) -> Seq<Seq<char>>
    decreases text.len(),
{
    let end = line_end(text);
    if 0 <= end < text.len() {
        seq![text.take(end)] + lines_of(text.skip(end + 1))
    } else {
        seq![text]
    }
}

/// The line end lies in the text, and the line before it holds no line feed.
proof fn lemma_line_end(text: Seq<char>, at: int)
    requires
        0 <= at <= text.len(),
        forall|i: int| 0 <= i < at ==> #[trigger] text[i] != '\n',
        at < text.len() ==> text[at] == '\n',
    ensures
        line_end(text) == at,
    decreases text.len(),
{
    if at > 0 {
        lemma_line_end(text.drop_first(), at - 1);
    }
}

/// Texts, by their characters.
pub open spec fn texts_view(texts: Seq<&str>) -> Seq<Seq<char>> {
    texts.map_values(|text: &str| text@)
}

/// The lines of a text, without their line feeds.
pub fn split_lines<'a>(text: &'a str) -> (lines: Vec<&'a str>)
    ensures
        texts_view(lines@) == lines_of(text@),
{
    let chars = chars_of(text);
    let mut lines: Vec<&'a str> = Vec::new();
    let mut start: usize = 0;
    proof {
        assert(text@.skip(0) =~= text@);
        assert(texts_view(lines@) + lines_of(text@) =~= lines_of(text@));
    }
    loop
        invariant
            chars@ == text@,
            start <= chars@.len(),
            texts_view(lines@) + lines_of(text@.skip(start as int)) == lines_of(text@),
        decreases chars@.len() - start,
    {
        let ghost rest = text@.skip(start as int);
        let mut end: usize = start;
        while end < chars.len() && chars[end] != '\n'
            invariant
                chars@ == text@,
                start <= end <= chars@.len(),
                rest == text@.skip(start as int),
                forall|i: int| 0 <= i < end - start ==> #[trigger] rest[i] != '\n',
            decreases chars@.len() - end,
        {
            end += 1;
        }
        proof {
            lemma_line_end(rest, end - start);
        }
        let ghost before = lines@;
        let line = text.substring_char(start, end);
        lines.push(line);
        proof {
            assert(line@ =~= rest.take(end - start));
            assert(texts_view(lines@) =~= texts_view(before).push(line@));
        }
        if end == chars.len() {
            proof {
                assert(line@ =~= rest);
                assert(texts_view(lines@) =~= texts_view(before) + lines_of(rest));
            }
            return lines;
        }
        let ghost length = end - start;
        start = end + 1;
        proof {
            assert(text@.skip(start as int) =~= rest.skip(length + 1));
            assert(texts_view(lines@) + lines_of(rest.skip(length + 1)) =~= texts_view(before)
                + lines_of(rest));
        }
    }
}

/// What a `data:` line says, without the white space around it.
pub open spec fn data_of_line(line: Seq<char>) -> Option<Seq<char>> {
    if "data:"@.is_prefix_of(line) {
        Some(text::without_tail(text::without_lead(line.skip("data:"@.len() as int))))
    } else {
        None
    }
}

/// What the `data:` lines say, joined line by line; `None` where there is none.
pub open spec fn data_in(lines: Seq<Seq<char>>) -> Option<Seq<char>>
    decreases lines.len(),
{
    if lines.len() == 0 {
        None
    } else {
        let above = data_in(lines.drop_last());
        match data_of_line(lines.last()) {
            None => above,
            Some(data) => match above {
                None => Some(data),
                Some(above) => Some(above + "\n"@ + data),
            },
        }
    }
}

/// What the `data:` lines of a frame say.
fn frame_data(frame: &str) -> (data: Option<String>)
    ensures
        crate::protocol::optional_text(data) == data_in(lines_of(frame@)),
{
    let lines = split_lines(frame);
    let ghost views = texts_view(lines@);
    let mut data: Option<String> = None;
    let mut i: usize = 0;
    while i < lines.len()
        invariant
            i <= lines@.len(),
            views == texts_view(lines@),
            crate::protocol::optional_text(data) == data_in(views.take(i as int)),
        decreases lines@.len() - i,
    {
        let line = lines[i];
        proof {
            assert(views.take(i + 1).drop_last() =~= views.take(i as int));
            assert(views.take(i + 1).last() == line@);
            reveal_strlit("data:");
        }
        if starts_with(line, "data:") {
            let said = trim(line.substring_char(5, chars_of(line).len()));
            proof {
                assert(line@.subrange(5, line@.len() as int) =~= line@.skip(5));
            }
            data =
            match data {
                None => Some(said.to_owned()),
                Some(mut above) => {
                    above.append("\n");
                    above.append(said);
                    Some(above)
                },
            };
        }
        i += 1;
    }
    proof {
        assert(views.take(views.len() as int) =~= views);
    }
    data
}

/// An outcome of reading a frame is this one.
pub open spec fn frame_is(
    outcome: Result<ParsedSseFrame, SwitchyardError>,
    frame: FrameView,
) -> bool {
    match frame {
        FrameView::Json(value) => outcome == Ok::<ParsedSseFrame, SwitchyardError>(
            ParsedSseFrame::Json(value),
        ),
        FrameView::Done => outcome == Ok::<ParsedSseFrame, SwitchyardError>(ParsedSseFrame::Done),
        FrameView::Empty => outcome == Ok::<ParsedSseFrame, SwitchyardError>(ParsedSseFrame::Empty),
        FrameView::Failed(error) => outcome matches Err(failed) && failed@ == error,
    }
}

/// What data comes to, given what it parses to.
pub open spec fn interpreted(
    data: Seq<char>,
    provider: Seq<char>,
    done: Option<Seq<char>>,
    parsed: Result<Value, Seq<char>>,
) -> FrameView {
    if data.len() == 0 {
        FrameView::Empty
    } else if done == Some(data) {
        FrameView::Done
    } else {
        match parsed {
            Ok(value) => FrameView::Json(value),
            Err(words) => FrameView::Failed(
                ErrorView::Upstream(provider + " stream returned invalid JSON: "@ + words),
            ),
        }
    }
}

/// Reads a frame's data, given the value that it parses to or why it parses to none.
pub fn interpret(
    data: &str,
    provider: &str,
    done: Option<&str>,
    parsed: Result<Value, String>,
) -> (outcome: Result<ParsedSseFrame, SwitchyardError>)
    ensures
        frame_is(
            outcome,
            interpreted(
                data@,
                provider@,
                match done {
                    Some(marker) => Some(marker@),
                    None => None,
                },
                match parsed {
                    Ok(value) => Ok(value),
                    Err(words) => Err(words@),
                },
            ),
        ),
{
    if chars_of(data).len() == 0 {
        return Ok(ParsedSseFrame::Empty);
    }
    if let Some(marker) = done {
        if text_eq(data, marker) {
            return Ok(ParsedSseFrame::Done);
        }
    }
    match parsed {
        Ok(value) => Ok(ParsedSseFrame::Json(value)),
        Err(words) => {
            let mut message = concat(provider, " stream returned invalid JSON: ");
            message.append(words.as_str());
            Err(SwitchyardError::Upstream(message))
        },
    }
}

/// What a frame's text comes to.
pub open spec fn parsed_frame(
    frame: Seq<char>,
    provider: Seq<char>,
    done: Option<Seq<char>>,
) -> FrameView {
    match data_in(lines_of(frame)) {
        None => FrameView::Empty,
        Some(data) => interpreted(data, provider, done, json_text::parsed_json(data)),
    }
}

/// Reads a frame: the JSON value that its data spells, the end of the stream
/// where its data is `done`, nothing where it has no data.
pub fn parse_json_sse_frame(frame: &str, provider: &str, done: Option<&str>) -> (outcome: Result<
    ParsedSseFrame,
    SwitchyardError,
>)
    ensures
        frame_is(
            outcome,
            parsed_frame(
                frame@,
                provider@,
                match done {
                    Some(marker) => Some(marker@),
                    None => None,
                },
            ),
        ),
{
    match frame_data(frame) {
        None => Ok(ParsedSseFrame::Empty),
        Some(data) => interpret(data.as_str(), provider, done, parse_json(data.as_str())),
    }
}

/// How long the separator at a place is: an empty line, with line feeds alone or
/// with carriage returns before them; none where it is not one.
pub open spec fn separator_at(bytes: Seq<u8>, at: int) -> int {
    if at + 2 <= bytes.len() && bytes[at] == 10 && bytes[at + 1] == 10 {
        2
    } else if at + 4 <= bytes.len() && bytes[at] == 13 && bytes[at + 1] == 10 && bytes[at + 2] == 13
        && bytes[at + 3] == 10 {
        4
    } else {
        0
    }
}

/// The first place from `from` on where a separator stands, the end where none does.
pub open spec fn separator_from(bytes: Seq<u8>, from: int) -> int
    decreases bytes.len() - from,
{
    if from >= bytes.len() || separator_at(bytes, from) > 0 {
        from
    } else {
        separator_from(bytes, from + 1)
    }
}

/// The first frame and what follows it, once the frame is complete.
pub open spec fn next_frame(bytes: Seq<u8>) -> Option<(Seq<u8>, Seq<u8>)> {
    let at = separator_from(bytes, 0);
    if at >= bytes.len() {
        None
    } else {
        Some((bytes.take(at), bytes.skip(at + separator_at(bytes, at))))
    }
}

/// What is found is a separator, and the first.
proof fn lemma_separator_from(bytes: Seq<u8>, from: int)
    requires
        0 <= from <= bytes.len(),
    ensures
        from <= separator_from(bytes, from) <= bytes.len(),
        separator_from(bytes, from) < bytes.len() ==> separator_at(
            bytes,
            separator_from(bytes, from),
        ) > 0,
        forall|i: int|
            from <= i < separator_from(bytes, from) ==> #[trigger] separator_at(bytes, i) == 0,
    decreases bytes.len() - from,
{
    if from < bytes.len() && separator_at(bytes, from) == 0 {
        lemma_separator_from(bytes, from + 1);
    }
}

/// The first separator is where no other comes before it.
proof fn lemma_first_separator(bytes: Seq<u8>, from: int, at: int)
    requires
        0 <= from <= at < bytes.len(),
        separator_at(bytes, at) > 0,
        forall|i: int| from <= i < at ==> #[trigger] separator_at(bytes, i) == 0,
    ensures
        separator_from(bytes, from) == at,
    decreases at - from,
{
    if from < at {
        assert(separator_at(bytes, from) == 0);
        lemma_first_separator(bytes, from + 1, at);
    }
}

/// A complete frame stays what it is whatever follows.
pub proof fn law_complete_frames_stay(bytes: Seq<u8>, more: Seq<u8>)
    requires
        next_frame(bytes) is Some,
    ensures
        next_frame(bytes) matches Some((frame, rest)) && next_frame(bytes + more) == Some(
            (frame, rest + more),
        ) && rest.len() < bytes.len(),
{
    let whole = bytes + more;
    let at = separator_from(bytes, 0);
    lemma_separator_from(bytes, 0);
    assert(separator_at(whole, at) == separator_at(bytes, at));
    assert forall|i: int| 0 <= i < at implies #[trigger] separator_at(whole, i) == 0 by {
        assert(separator_at(bytes, i) == 0);
        // A separator that the bytes cut off would overlap the complete one.
        if separator_at(whole, i) > 0 {
            assert(i + separator_at(whole, i) > bytes.len());
            assert(i == at - 1);
        }
    }
    lemma_first_separator(whole, 0, at);
    assert(whole.take(at) =~= bytes.take(at));
    assert(whole.skip(at + separator_at(bytes, at)) =~= bytes.skip(at + separator_at(bytes, at))
        + more);
}

/// What a frame's bytes come to.
pub open spec fn read_frame(bytes: Seq<u8>) -> FrameView {
    if vstd::utf8::valid_utf8(bytes) {
        parsed_frame(vstd::utf8::decode_utf8(bytes), PROVIDER@, Some(DONE_MARKER@))
    } else {
        FrameView::Failed(ErrorView::Upstream(PROVIDER@ + " stream returned invalid UTF-8"@))
    }
}

/// The text of a frame's bytes.
pub fn decode_sse_frame(bytes: &[u8], provider: &str) -> (frame: Result<String, SwitchyardError>)
    ensures
        if vstd::utf8::valid_utf8(bytes@) {
            frame matches Ok(decoded) && decoded@ == vstd::utf8::decode_utf8(bytes@)
        } else {
            frame matches Err(error) && error@ == ErrorView::Upstream(
                provider@ + " stream returned invalid UTF-8"@,
            )
        },
{
    match std::str::from_utf8(bytes) {
        Ok(decoded) => Ok(decoded.to_owned()),
        Err(_) => Err(
            SwitchyardError::Upstream(concat(provider, " stream returned invalid UTF-8")),
        ),
    }
}

/// Takes the first complete frame off the front of a buffer, `None` where there
/// is none yet.
pub fn drain_next_sse_frame(buffer: &mut Vec<u8>) -> (frame: Option<Vec<u8>>)
    ensures
        match next_frame(old(buffer)@) {
            Some((bytes, rest)) => frame matches Some(taken) && taken@ == bytes && final(buffer)@
                == rest,
            None => frame is None && final(buffer)@ == old(buffer)@,
        },
{
    let ghost bytes = buffer@;
    let mut at: usize = 0;
    while at < buffer.len()
        invariant
            bytes == buffer@,
            bytes == old(buffer)@,
            at <= bytes.len(),
            separator_from(bytes, at as int) == separator_from(bytes, 0),
        decreases bytes.len() - at,
    {
        let length = separator_length(buffer, at);
        if length > 0 {
            let rest = buffer.split_off(at + length);
            buffer.truncate(at);
            let mut frame = rest;
            std::mem::swap(&mut frame, buffer);
            proof {
                assert(frame@ =~= bytes.take(at as int));
                assert(buffer@ =~= bytes.skip(at + length));
            }
            return Some(frame);
        }
        at += 1;
    }
    None
}

/// How long the separator at a place is, zero where none stands there.
fn separator_length(bytes: &Vec<u8>, at: usize) -> (length: usize)
    requires
        at < bytes@.len(),
    ensures
        length == separator_at(bytes@, at as int),
        at + length <= bytes@.len(),
{
    let left: usize = bytes.len() - at;
    if left >= 2 && bytes[at] == 10 && bytes[at + 1] == 10 {
        2
    } else if left >= 4 && bytes[at] == 13 && bytes[at + 1] == 10 && bytes[at + 2] == 13 && bytes[at
        + 3] == 10 {
        4
    } else {
        0
    }
}

/// A byte of white space.
pub open spec fn space_byte(byte: u8) -> bool {
    byte == 32 || byte == 9 || byte == 10 || byte == 12 || byte == 13
}

/// Bytes that are not all white space.
pub open spec fn holds_text(bytes: Seq<u8>) -> bool {
    exists|i: int| 0 <= i < bytes.len() && !space_byte(#[trigger] bytes[i])
}

/// Whether bytes hold anything but white space.
pub fn has_non_whitespace_bytes(bytes: &[u8]) -> (yes: bool)
    ensures
        yes == holds_text(bytes@),
{
    let mut i: usize = 0;
    while i < bytes.len()
        invariant
            i <= bytes@.len(),
            forall|j: int| 0 <= j < i ==> space_byte(#[trigger] bytes@[j]),
        decreases bytes@.len() - i,
    {
        let byte: u8 = bytes[i];
        if !(byte == 32 || byte == 9 || byte == 10 || byte == 12 || byte == 13) {
            return true;
        }
        i += 1;
    }
    false
}

/// How a stream stands.
#[derive(Debug, PartialEq)]
pub enum StreamEnd {
    /// More may come.
    Open,
    /// The upstream said that it is done.
    Done,
    /// Something was wrong with it.
    Failed(SwitchyardError),
}

/// How a stream stands.
pub enum EndView {
    /// More may come.
    Open,
    /// The upstream said that it is done.
    Done,
    /// Something was wrong with it.
    Failed(ErrorView),
}

impl View for StreamEnd {
    type V = EndView;

    open spec fn view(&self) -> EndView {
        match self {
            StreamEnd::Open => EndView::Open,
            StreamEnd::Done => EndView::Done,
            StreamEnd::Failed(error) => EndView::Failed(error@),
        }
    }
}

impl StreamEnd {
    /// Whether more may come.
    pub fn is_open(&self) -> (yes: bool)
        ensures
            yes == (self@ is Open),
    {
        match self {
            StreamEnd::Open => true,
            StreamEnd::Done | StreamEnd::Failed(_) => false,
        }
    }

    /// A copy of the end.
    pub fn copy(&self) -> (copy: StreamEnd)
        ensures
            copy == *self,
    {
        match self {
            StreamEnd::Open => StreamEnd::Open,
            StreamEnd::Done => StreamEnd::Done,
            StreamEnd::Failed(error) => StreamEnd::Failed(error.copy()),
        }
    }
}

/// What bytes come to: the values, in order, and how the stream stands after.
#[derive(Debug, PartialEq)]
pub struct Decoded {
    /// The values.
    pub values: Vec<Value>,
    /// How the stream stands.
    pub end: StreamEnd,
}

/// What bytes come to.
pub struct DecodedView {
    /// The values, in order.
    pub values: Seq<Value>,
    /// The bytes of the frame that is not complete yet.
    pub rest: Seq<u8>,
    /// How the stream stands.
    pub end: EndView,
}

/// What bytes come to: each complete frame in turn, until the stream is done or
/// fails.
pub open spec fn decoded(bytes: Seq<u8>) -> DecodedView
    decreases bytes.len(),
{
    match next_frame(bytes) {
        None => DecodedView { values: seq![], rest: bytes, end: EndView::Open },
        Some((frame, rest)) => {
            proof {
                law_complete_frames_stay(bytes, seq![]);
            }
            match read_frame(frame) {
                FrameView::Json(value) => {
                    let after = decoded(rest);
                    DecodedView { values: seq![value] + after.values, ..after }
                },
                FrameView::Empty => decoded(rest),
                FrameView::Done => DecodedView { values: seq![], rest, end: EndView::Done },
                FrameView::Failed(error) => DecodedView {
                    values: seq![],
                    rest,
                    end: EndView::Failed(error),
                },
            }
        },
    }
}

/// What the bytes left when a stream closes come to: a last frame that lacked its
/// separator.
pub open spec fn closed(bytes: Seq<u8>) -> DecodedView {
    if !holds_text(bytes) {
        DecodedView { values: seq![], rest: seq![], end: EndView::Done }
    } else {
        match read_frame(bytes) {
            FrameView::Json(value) => DecodedView {
                values: seq![value],
                rest: seq![],
                end: EndView::Done,
            },
            FrameView::Empty | FrameView::Done => DecodedView {
                values: seq![],
                rest: seq![],
                end: EndView::Done,
            },
            FrameView::Failed(error) => DecodedView {
                values: seq![],
                rest: seq![],
                end: EndView::Failed(error),
            },
        }
    }
}

/// Reads a frame's bytes.
fn frame_of(bytes: &[u8]) -> (outcome: Result<ParsedSseFrame, SwitchyardError>)
    ensures
        frame_is(outcome, read_frame(bytes@)),
{
    match decode_sse_frame(bytes, PROVIDER) {
        Ok(frame) => parse_json_sse_frame(frame.as_str(), PROVIDER, Some(DONE_MARKER)),
        Err(error) => Err(error),
    }
}

/// Decodes a stream as it arrives, up to its end.
#[derive(Debug, PartialEq)]
pub struct SseDecoder {
    buffer: Vec<u8>,
    end: StreamEnd,
}

/// Where a decoder stands.
pub struct DecoderView {
    /// The bytes of the frame that is not complete yet.
    pub rest: Seq<u8>,
    /// How the stream stands.
    pub end: EndView,
}

impl View for SseDecoder {
    type V = DecoderView;

    closed spec fn view(&self) -> DecoderView {
        DecoderView { rest: self.buffer@, end: self.end@ }
    }
}

impl DecoderView {
    /// What the next bytes come to: nothing more once the stream has ended.
    pub open spec fn fed(self, chunk: Seq<u8>) -> DecodedView {
        then_fed(DecodedView { values: seq![], rest: self.rest, end: self.end }, chunk)
    }

    /// What closing the stream comes to: nothing more once it has ended.
    pub open spec fn finished(self) -> DecodedView {
        if self.end is Open {
            closed(self.rest)
        } else {
            DecodedView { values: seq![], rest: self.rest, end: self.end }
        }
    }
}

impl SseDecoder {
    /// A decoder at the start of a stream.
    pub fn new() -> (decoder: SseDecoder)
        ensures
            decoder@ == (DecoderView { rest: Seq::<u8>::empty(), end: EndView::Open }),
    {
        SseDecoder { buffer: Vec::new(), end: StreamEnd::Open }
    }

    /// Takes the next bytes of the stream and gives the values that they
    /// complete. A stream that is done or failed takes no more: nothing comes out
    /// of it, and its end stays what it was.
    pub fn feed(&mut self, chunk: &[u8]) -> (outcome: Decoded)
        ensures
            ({
                let whole = old(self)@.fed(chunk@);
                &&& outcome.values@ == whole.values
                &&& outcome.end@ == whole.end
                &&& final(self)@ == (DecoderView { rest: whole.rest, end: whole.end })
            }),
    {
        let mut values: Vec<Value> = Vec::new();
        if !self.end.is_open() {
            return Decoded { values, end: self.end.copy() };
        }
        let ghost start = self.buffer@ + chunk@;
        self.buffer.extend_from_slice(chunk);
        proof {
            assert(self.buffer@ =~= start);
            assert(values@ + decoded(start).values =~= decoded(start).values);
        }
        loop
            invariant
                old(self)@.end is Open,
                self.end@ is Open,
                start == old(self)@.rest + chunk@,
                values@ + decoded(self.buffer@).values == decoded(start).values,
                decoded(self.buffer@).rest == decoded(start).rest,
                decoded(self.buffer@).end == decoded(start).end,
            decreases self.buffer@.len(),
        {
            let ghost bytes = self.buffer@;
            let ghost before = values@;
            proof {
                if next_frame(bytes) is Some {
                    law_complete_frames_stay(bytes, seq![]);
                }
            }
            let frame = match drain_next_sse_frame(&mut self.buffer) {
                Some(frame) => frame,
                None => {
                    proof {
                        assert(values@ + seq![] =~= values@);
                    }
                    return Decoded { values, end: StreamEnd::Open };
                },
            };
            match frame_of(frame.as_slice()) {
                Ok(ParsedSseFrame::Json(value)) => {
                    values.push(value);
                    proof {
                        assert(values@ + decoded(self.buffer@).values =~= before + decoded(
                            bytes,
                        ).values);
                    }
                },
                Ok(ParsedSseFrame::Empty) => {},
                Ok(ParsedSseFrame::Done) => {
                    self.end = StreamEnd::Done;
                    proof {
                        assert(values@ + seq![] =~= values@);
                    }
                    return Decoded { values, end: StreamEnd::Done };
                },
                Err(error) => {
                    self.end = StreamEnd::Failed(error.copy());
                    proof {
                        assert(values@ + seq![] =~= values@);
                    }
                    return Decoded { values, end: StreamEnd::Failed(error) };
                },
            }
        }
    }

    /// Closes the stream, and gives the value of a last frame that lacked its
    /// separator. Nothing more comes out of a stream that is done or failed.
    pub fn finish(self) -> (outcome: Decoded)
        ensures
            outcome.values@ == self@.finished().values,
            outcome.end@ == self@.finished().end,
    {
        let mut values: Vec<Value> = Vec::new();
        if !self.end.is_open() {
            return Decoded { values, end: self.end };
        }
        if !has_non_whitespace_bytes(self.buffer.as_slice()) {
            return Decoded { values, end: StreamEnd::Done };
        }
        match frame_of(self.buffer.as_slice()) {
            Ok(ParsedSseFrame::Json(value)) => {
                values.push(value);
                Decoded { values, end: StreamEnd::Done }
            },
            Ok(ParsedSseFrame::Done) | Ok(ParsedSseFrame::Empty) => Decoded {
                values,
                end: StreamEnd::Done,
            },
            Err(error) => Decoded { values, end: StreamEnd::Failed(error) },
        }
    }
}

/// The error of a stream that broke off.
pub fn stream_read_failed(detail: &str) -> (error: SwitchyardError)
    ensures
        error@ == ErrorView::Upstream("Anthropic stream read failed: "@ + detail@),
{
    SwitchyardError::Upstream(concat("Anthropic stream read failed: ", detail))
}

/// What two chunks come to, one after the other.
pub open spec fn then_fed(first: DecodedView, chunk: Seq<u8>) -> DecodedView {
    if first.end is Open {
        let second = decoded(first.rest + chunk);
        DecodedView { values: first.values + second.values, ..second }
    } else {
        first
    }
}

/// Where a stream is cut makes no difference to two chunks: the values and the
/// end are those of the bytes in one piece.
pub proof fn law_cut_makes_no_difference(first: Seq<u8>, second: Seq<u8>)
    ensures
        then_fed(decoded(first), second).values == decoded(first + second).values,
        then_fed(decoded(first), second).end == decoded(first + second).end,
        decoded(first).end is Open ==> then_fed(decoded(first), second).rest == decoded(
            first + second,
        ).rest,
    decreases first.len(),
{
    if let Some((frame, rest)) = next_frame(first) {
        law_complete_frames_stay(first, second);
        law_cut_makes_no_difference(rest, second);
        if let FrameView::Json(value) = read_frame(frame) {
            assert(seq![value] + (decoded(rest).values + decoded(decoded(rest).rest + second).values)
                =~= (seq![value] + decoded(rest).values) + decoded(
                decoded(rest).rest + second,
            ).values);
        }
    } else {
        assert(seq![] + decoded(first + second).values =~= decoded(first + second).values);
    }
}

/// The bytes of all chunks.
pub open spec fn all_bytes(chunks: Seq<Seq<u8>>) -> Seq<u8>
    decreases chunks.len(),
{
    if chunks.len() == 0 {
        seq![]
    } else {
        all_bytes(chunks.drop_last()) + chunks.last()
    }
}

/// What chunks come to, fed one after the other.
pub open spec fn all_fed(chunks: Seq<Seq<u8>>) -> DecodedView
    decreases chunks.len(),
{
    if chunks.len() == 0 {
        decoded(seq![])
    } else {
        then_fed(all_fed(chunks.drop_last()), chunks.last())
    }
}

/// However a stream is cut into chunks, the values and the end are those of the
/// bytes in one piece.
pub proof fn law_chunks_make_no_difference(chunks: Seq<Seq<u8>>)
    ensures
        all_fed(chunks).values == decoded(all_bytes(chunks)).values,
        all_fed(chunks).end == decoded(all_bytes(chunks)).end,
        all_fed(chunks).end is Open ==> all_fed(chunks).rest == decoded(all_bytes(chunks)).rest,
    decreases chunks.len(),
{
    if chunks.len() > 0 {
        law_chunks_make_no_difference(chunks.drop_last());
        law_cut_makes_no_difference(all_bytes(chunks.drop_last()), chunks.last());
    }
}

/// Nothing follows the end: once the chunks so far have ended the stream, more
/// chunks change neither the values nor the end, and closing it adds nothing.
pub proof fn law_nothing_follows_the_end(chunks: Seq<Seq<u8>>, more: Seq<Seq<u8>>)
    requires
        !(all_fed(chunks).end is Open),
    ensures
        all_fed(chunks + more) == all_fed(chunks),
        ({
            let decoder = DecoderView { rest: all_fed(chunks).rest, end: all_fed(chunks).end };
            decoder.finished().values == Seq::<Value>::empty() && decoder.finished().end
                == decoder.end
        }),
    decreases more.len(),
{
    if more.len() == 0 {
        assert(chunks + more =~= chunks);
    } else {
        assert((chunks + more).drop_last() =~= chunks + more.drop_last());
        law_nothing_follows_the_end(chunks, more.drop_last());
    }
}

/// Feeding a decoder chunk by chunk is what the chunk laws speak of: the values
/// that come out of one more chunk follow those of the chunks before it.
pub proof fn law_feeding_appends(chunks: Seq<Seq<u8>>, chunk: Seq<u8>)
    ensures
        ({
            let before = all_fed(chunks);
            let step = (DecoderView { rest: before.rest, end: before.end }).fed(chunk);
            all_fed(chunks.push(chunk)) == (DecodedView {
                values: before.values + step.values,
                ..step
            })
        }),
{
    let before = all_fed(chunks);
    assert(chunks.push(chunk).drop_last() =~= chunks);
    let step = (DecoderView { rest: before.rest, end: before.end }).fed(chunk);
    if before.end is Open {
        assert(seq![] + decoded(before.rest + chunk).values =~= decoded(before.rest + chunk).values);
    } else {
        assert(before.values + step.values =~= before.values);
    }
}

/// The first line ends at the first line feed, or at the end where there is none.
pub proof fn law_first_lines_end(text: Seq<char>)
    ensures
        0 <= line_end(text) <= text.len(),
        forall|i: int| 0 <= i < line_end(text) ==> #[trigger] text[i] != '\n',
        line_end(text) < text.len() ==> text[line_end(text)] == '\n',
    decreases text.len(),
{
    if text.len() > 0 && text[0] != '\n' {
        let rest = text.drop_first();
        law_first_lines_end(rest);
        assert forall|i: int| 0 <= i < line_end(text) implies #[trigger] text[i] != '\n' by {
            if i > 0 {
                assert(text[i] == rest[i - 1]);
            }
        }
    }
}

/// A line feed parts lines, and nothing else does: a text without one is one line,
/// and the lines of two texts with one between them are those of the first and then
/// those of the second.
pub proof fn law_line_feeds_part_lines(a: Seq<char>, b: Seq<char>)
    ensures
        lines_of(a + seq!['\n'] + b) == lines_of(a) + lines_of(b),
        (forall|i: int| 0 <= i < a.len() ==> #[trigger] a[i] != '\n') ==> lines_of(a) == seq![a],
    decreases a.len(),
{
    let whole = a + seq!['\n'] + b;
    let end = line_end(a);
    law_first_lines_end(a);
    assert forall|i: int| 0 <= i < end implies #[trigger] whole[i] != '\n' by {
        assert(whole[i] == a[i]);
    }
    assert(whole[end] == '\n');
    lemma_line_end(whole, end);
    assert(whole.take(end) =~= a.take(end));
    if end == a.len() {
        assert(a.take(end) =~= a);
        assert(whole.skip(end + 1) =~= b);
    } else {
        assert(a[end] == '\n');
        assert(whole.skip(end + 1) =~= a.skip(end + 1) + seq!['\n'] + b);
        law_line_feeds_part_lines(a.skip(end + 1), b);
        assert(lines_of(whole) =~= lines_of(a) + lines_of(b));
    }
}

/// Texts are seen one for one.
pub proof fn law_texts_are_seen(texts: Seq<&str>, i: int)
    requires
        0 <= i < texts.len(),
    ensures
        texts_view(texts).len() == texts.len(),
        texts_view(texts)[i] == texts[i]@,
{
}

/// A line says something exactly where it starts with `data:`, and says what follows
/// that, without the white space around it.
pub proof fn law_what_a_line_says(lead: Seq<char>, said: Seq<char>, tail: Seq<char>, line: Seq<char>)
    requires
        text::blank(lead),
        text::blank(tail),
        said.len() > 0 ==> !text::white_space(said[0]) && !text::white_space(said.last()),
    ensures
        data_of_line("data:"@ + lead + said + tail) == Some(said),
        data_of_line(line) is Some <==> line.len() >= 5 && line[0] == 'd' && line[1] == 'a'
            && line[2] == 't' && line[3] == 'a' && line[4] == ':',
{
    reveal_strlit("data:");
    let whole = "data:"@ + lead + said + tail;
    assert("data:"@.is_prefix_of(whole)) by {
        assert(whole.subrange(0, 5) =~= "data:"@);
    }
    assert(whole.skip(5) =~= lead + said + tail);
    if said.len() > 0 {
        assert(lead + said + tail =~= lead + (said + tail));
        assert((said + tail)[0] == said[0]);
        text::law_without_lead(lead, said + tail);
        text::law_without_tail(said, tail);
    } else {
        assert(lead + said + tail =~= (lead + tail) + seq![]);
        text::law_blank(lead, tail, 'd');
        text::law_without_lead(lead + tail, seq![]);
        assert(said =~= seq![]);
    }
    if line.len() >= 5 && line[0] == 'd' && line[1] == 'a' && line[2] == 't' && line[3] == 'a'
        && line[4] == ':' {
        assert(line.subrange(0, 5) =~= "data:"@);
    } else if "data:"@.is_prefix_of(line) {
        let start = line.subrange(0, 5);
        assert(start == "data:"@);
        assert(line[0] == start[0] && line[1] == start[1] && line[2] == start[2] && line[3]
            == start[3] && line[4] == start[4]);
    }
}

/// A line that does not start with `data:`, wherever it stands among others, changes
/// nothing of what they say.
pub proof fn law_other_lines_say_nothing(
    above: Seq<Seq<char>>,
    line: Seq<char>,
    below: Seq<Seq<char>>,
)
    requires
        !"data:"@.is_prefix_of(line),
    ensures
        data_in(above + seq![line] + below) == data_in(above + below),
    decreases below.len(),
{
    if below.len() == 0 {
        assert((above + seq![line] + below).drop_last() =~= above);
        assert(above + below =~= above);
    } else {
        assert((above + seq![line] + below).drop_last() =~= above + seq![line]
            + below.drop_last());
        assert((above + below).drop_last() =~= above + below.drop_last());
        law_other_lines_say_nothing(above, line, below.drop_last());
    }
}

/// Several `data:` lines are joined in their order, each on a line of its own; no
/// line says nothing.
pub proof fn law_data_lines_are_joined(above: Seq<Seq<char>>, line: Seq<char>, said: Seq<char>)
    requires
        data_of_line(line) == Some(said),
    ensures
        data_in(seq![]) is None,
        data_in(above) is None ==> data_in(above.push(line)) == Some(said),
        data_in(above) matches Some(before) ==> data_in(above.push(line)) == Some(
            before + seq!['\n'] + said,
        ),
{
    reveal_strlit("\n");
    assert(above.push(line).drop_last() =~= above);
    assert("\n"@ =~= seq!['\n']);
}

/// Lines that say nothing, however many and whatever they hold, come to no data.
pub proof fn law_no_data_lines(lines: Seq<Seq<char>>)
    requires
        forall|i: int| 0 <= i < lines.len() ==> !"data:"@.is_prefix_of(#[trigger] lines[i]),
    ensures
        data_in(lines) is None,
    decreases lines.len(),
{
    if lines.len() > 0 {
        assert(!"data:"@.is_prefix_of(lines[lines.len() - 1]));
        assert forall|i: int| 0 <= i < lines.drop_last().len() implies !"data:"@.is_prefix_of(
            #[trigger] lines.drop_last()[i],
        ) by {
            assert(lines.drop_last()[i] == lines[i]);
        }
        law_no_data_lines(lines.drop_last());
    }
}

/// What data comes to, by what it is: nothing where it is empty, the end where it is
/// the marker, else the value that it parses to, whatever that is, or an error that
/// tells whose stream it is and why it parses to none.
pub proof fn law_data_by_what_it_is(
    data: Seq<char>,
    provider: Seq<char>,
    done: Option<Seq<char>>,
    parsed: Result<Value, Seq<char>>,
)
    ensures
        interpreted(data, provider, done, parsed) is Empty <==> data.len() == 0,
        interpreted(data, provider, done, parsed) is Done <==> data.len() > 0 && done == Some(data),
        data.len() > 0 && done != Some(data) ==> (parsed matches Ok(value) ==> interpreted(
            data,
            provider,
            done,
            parsed,
        ) == FrameView::Json(value)),
        data.len() > 0 && done != Some(data) ==> (parsed matches Err(words) ==> interpreted(
            data,
            provider,
            done,
            parsed,
        ) == FrameView::Failed(
            ErrorView::Upstream(provider + " stream returned invalid JSON: "@ + words),
        )),
{
}

/// An outcome that is some frame's is a value, an end or nothing as the frame is,
/// and an error where the frame is one.
pub proof fn law_outcomes_of_frames(
    outcome: Result<ParsedSseFrame, SwitchyardError>,
    frame: FrameView,
)
    requires
        frame_is(outcome, frame),
    ensures
        frame matches FrameView::Json(value) ==> (outcome matches Ok(ParsedSseFrame::Json(read))
            && read == value),
        frame is Done <==> outcome matches Ok(ParsedSseFrame::Done),
        frame is Empty <==> outcome matches Ok(ParsedSseFrame::Empty),
        frame matches FrameView::Failed(error) ==> (outcome matches Err(failed) && failed@ == error),
        outcome is Err <==> frame is Failed,
{
}

/// A frame is read by its data alone: two frames whose `data:` lines say the same
/// come to the same, and data that is neither empty nor the marker and parses to a
/// value gives that value, whatever other lines stand in the frame.
pub proof fn law_frames_are_read_by_their_data(
    frame: Seq<char>,
    other: Seq<char>,
    provider: Seq<char>,
    done: Option<Seq<char>>,
    data: Seq<char>,
    value: Value,
    words: Seq<char>,
)
    ensures
        data_in(lines_of(frame)) == data_in(lines_of(other)) ==> parsed_frame(frame, provider, done)
            == parsed_frame(other, provider, done),
        data_in(lines_of(frame)) is None ==> parsed_frame(frame, provider, done) is Empty,
        data_in(lines_of(frame)) == Some(data) && data.len() == 0 ==> parsed_frame(
            frame,
            provider,
            done,
        ) is Empty,
        data_in(lines_of(frame)) == Some(data) && data.len() > 0 && done == Some(data)
            ==> parsed_frame(frame, provider, done) is Done,
        data_in(lines_of(frame)) == Some(data) && data.len() > 0 && done != Some(data)
            && json_text::parsed_json(data) == Ok::<Value, Seq<char>>(value) ==> parsed_frame(
            frame,
            provider,
            done,
        ) == FrameView::Json(value),
        data_in(lines_of(frame)) == Some(data) && data.len() > 0 && done != Some(data)
            && json_text::parsed_json(data) == Err::<Value, Seq<char>>(words) ==> parsed_frame(
            frame,
            provider,
            done,
        ) == FrameView::Failed(
            ErrorView::Upstream(provider + " stream returned invalid JSON: "@ + words),
        ),
{
}

/// A line that is no `data:` line, be it the name of an event, an id or a comment,
/// can be written into a frame at its start, at its end or between any two of its
/// lines, and the frame comes to what it came to without it.
pub proof fn law_other_lines_make_no_difference(
    before: Seq<char>,
    line: Seq<char>,
    after: Seq<char>,
    provider: Seq<char>,
    done: Option<Seq<char>>,
)
    requires
        forall|i: int| 0 <= i < line.len() ==> #[trigger] line[i] != '\n',
        !"data:"@.is_prefix_of(line),
    ensures
        parsed_frame(line + seq!['\n'] + after, provider, done) == parsed_frame(
            after,
            provider,
            done,
        ),
        parsed_frame(before + seq!['\n'] + line, provider, done) == parsed_frame(
            before,
            provider,
            done,
        ),
        parsed_frame(before + seq!['\n'] + (line + seq!['\n'] + after), provider, done)
            == parsed_frame(before + seq!['\n'] + after, provider, done),
{
    let none = Seq::<Seq<char>>::empty();
    law_line_feeds_part_lines(line, after);
    law_line_feeds_part_lines(before, line);
    law_line_feeds_part_lines(before, line + seq!['\n'] + after);
    law_line_feeds_part_lines(before, after);
    assert(none + seq![line] + lines_of(after) =~= lines_of(line + seq!['\n'] + after));
    assert(none + lines_of(after) =~= lines_of(after));
    law_other_lines_say_nothing(none, line, lines_of(after));
    assert(lines_of(before) + seq![line] + none =~= lines_of(before + seq!['\n'] + line));
    assert(lines_of(before) + none =~= lines_of(before));
    law_other_lines_say_nothing(lines_of(before), line, none);
    assert(lines_of(before) + seq![line] + lines_of(after) =~= lines_of(
        before + seq!['\n'] + (line + seq!['\n'] + after),
    ));
    law_other_lines_say_nothing(lines_of(before), line, lines_of(after));
}

/// A frame of one `data:` line whose text parses gives the value that it parses to,
/// whatever white space stands around the text.
pub proof fn law_one_data_line(
    lead: Seq<char>,
    said: Seq<char>,
    tail: Seq<char>,
    provider: Seq<char>,
    done: Option<Seq<char>>,
    value: Value,
)
    requires
        text::blank(lead),
        text::blank(tail),
        said.len() > 0,
        !text::white_space(said[0]),
        !text::white_space(said.last()),
        forall|i: int| 0 <= i < lead.len() ==> #[trigger] lead[i] != '\n',
        forall|i: int| 0 <= i < said.len() ==> #[trigger] said[i] != '\n',
        forall|i: int| 0 <= i < tail.len() ==> #[trigger] tail[i] != '\n',
        done != Some(said),
        json_text::parsed_json(said) == Ok::<Value, Seq<char>>(value),
    ensures
        parsed_frame("data:"@ + lead + said + tail, provider, done) == FrameView::Json(value),
{
    reveal_strlit("data:");
    let line = "data:"@ + lead + said + tail;
    law_what_a_line_says(lead, said, tail, line);
    assert forall|i: int| 0 <= i < line.len() implies #[trigger] line[i] != '\n' by {
        if i < 5 {
            assert(line[i] == "data:"@[i]);
        } else if i < 5 + lead.len() {
            assert(line[i] == lead[i - 5]);
        } else if i < 5 + lead.len() + said.len() {
            assert(line[i] == said[i - 5 - lead.len()]);
        } else {
            assert(line[i] == tail[i - 5 - lead.len() - said.len()]);
        }
    }
    law_line_feeds_part_lines(line, seq![]);
    let none = Seq::<Seq<char>>::empty();
    assert(none.push(line) =~= seq![line]);
    law_data_lines_are_joined(none, line, said);
}

/// A frame is complete at the first empty line, of line feeds alone or of carriage
/// returns and line feeds, and there is none before it. What follows it is kept, byte
/// for byte.
pub proof fn law_frames_end_at_the_first_empty_line(bytes: Seq<u8>)
    ensures
        next_frame(bytes) matches Some((frame, rest)) ==> (bytes == frame + seq![10u8, 10u8] + rest
            || bytes == frame + seq![13u8, 10u8, 13u8, 10u8] + rest) && forall|i: int|
            0 <= i < frame.len() ==> !(i + 1 < bytes.len() && #[trigger] bytes[i] == 10 && bytes[i
                + 1] == 10) && !(i + 3 < bytes.len() && bytes[i] == 13 && bytes[i + 1] == 10
                && bytes[i + 2] == 13 && bytes[i + 3] == 10),
        next_frame(bytes) is None ==> forall|i: int|
            0 <= i < bytes.len() ==> !(i + 1 < bytes.len() && #[trigger] bytes[i] == 10 && bytes[i
                + 1] == 10) && !(i + 3 < bytes.len() && bytes[i] == 13 && bytes[i + 1] == 10
                && bytes[i + 2] == 13 && bytes[i + 3] == 10),
{
    lemma_separator_from(bytes, 0);
    let at = separator_from(bytes, 0);
    assert forall|i: int| 0 <= i < at implies !(i + 1 < bytes.len() && #[trigger] bytes[i] == 10
        && bytes[i + 1] == 10) && !(i + 3 < bytes.len() && bytes[i] == 13 && bytes[i + 1] == 10
        && bytes[i + 2] == 13 && bytes[i + 3] == 10) by {
        assert(separator_at(bytes, i) == 0);
    }
    if let Some((frame, rest)) = next_frame(bytes) {
        if separator_at(bytes, at) == 2 {
            assert(bytes =~= frame + seq![10u8, 10u8] + rest);
        } else {
            assert(bytes =~= frame + seq![13u8, 10u8, 13u8, 10u8] + rest);
        }
    }
}

/// What a frame's bytes come to: what the text that they spell comes to for this
/// provider and its marker, and an error where they spell none.
pub proof fn law_frames_are_spelled(
    bytes: Seq<u8>,
    data: Seq<char>,
    value: Value,
    words: Seq<char>,
)
    ensures
        !vstd::utf8::valid_utf8(bytes) ==> read_frame(bytes) == FrameView::Failed(
            ErrorView::Upstream("Anthropic"@ + " stream returned invalid UTF-8"@),
        ),
        vstd::utf8::valid_utf8(bytes) ==> ({
            let said = data_in(lines_of(vstd::utf8::decode_utf8(bytes)));
            &&& said is None ==> read_frame(bytes) is Empty
            &&& said == Some(data) && data.len() == 0 ==> read_frame(bytes) is Empty
            &&& said == Some(data) && data == "[DONE]"@ ==> read_frame(bytes) is Done
            &&& said == Some(data) && data.len() > 0 && data != "[DONE]"@ && json_text::parsed_json(
                data,
            ) == Ok::<Value, Seq<char>>(value) ==> read_frame(bytes) == FrameView::Json(value)
            &&& said == Some(data) && data.len() > 0 && data != "[DONE]"@ && json_text::parsed_json(
                data,
            ) == Err::<Value, Seq<char>>(words) ==> read_frame(bytes) == FrameView::Failed(
                ErrorView::Upstream("Anthropic"@ + " stream returned invalid JSON: "@ + words),
            )
        }),
{
    reveal_strlit("[DONE]");
}

/// Bytes hold text where one of them is no white space of ASCII; it is settled byte
/// by byte.
pub proof fn law_bytes_that_hold_text(a: Seq<u8>, b: Seq<u8>, byte: u8)
    ensures
        !holds_text(seq![]),
        holds_text(seq![byte]) <==> byte != 32 && byte != 9 && byte != 10 && byte != 12 && byte
            != 13,
        holds_text(a + b) <==> holds_text(a) || holds_text(b),
{
    if !space_byte(byte) {
        assert(!space_byte(seq![byte][0]));
    }
    if holds_text(a) {
        let i = choose|i: int| 0 <= i < a.len() && !space_byte(#[trigger] a[i]);
        assert((a + b)[i] == a[i]);
    }
    if holds_text(b) {
        let i = choose|i: int| 0 <= i < b.len() && !space_byte(#[trigger] b[i]);
        assert((a + b)[a.len() + i] == b[i]);
    }
    if holds_text(a + b) {
        let i = choose|i: int| 0 <= i < (a + b).len() && !space_byte(#[trigger] (a + b)[i]);
        if i < a.len() {
            assert(a[i] == (a + b)[i]);
        } else {
            assert(b[i - a.len()] == (a + b)[i]);
        }
    }
}

/// A stream is decoded frame by frame. Bytes without a complete frame give nothing
/// and are kept; a frame with a value gives it before all that follows gives; an empty
/// frame is passed over; a frame that ends the stream, well or not, ends it with no
/// value after it.
pub proof fn law_frames_are_taken_in_turn(bytes: Seq<u8>)
    ensures
        next_frame(bytes) is None ==> decoded(bytes).values.len() == 0 && decoded(bytes).rest
            == bytes && decoded(bytes).end is Open,
        next_frame(bytes) matches Some((frame, rest)) ==> ({
            &&& read_frame(frame) matches FrameView::Json(value) ==> decoded(bytes).values.len()
                == decoded(rest).values.len() + 1 && decoded(bytes).values[0] == value && decoded(
                bytes,
            ).values.skip(1) == decoded(rest).values && decoded(bytes).rest == decoded(rest).rest
                && decoded(bytes).end == decoded(rest).end
            &&& read_frame(frame) is Empty ==> decoded(bytes) == decoded(rest)
            &&& read_frame(frame) is Done ==> decoded(bytes).values.len() == 0 && decoded(
                bytes,
            ).end is Done && decoded(bytes).rest == rest
            &&& read_frame(frame) matches FrameView::Failed(error) ==> decoded(bytes).values.len()
                == 0 && decoded(bytes).end == EndView::Failed(error) && decoded(bytes).rest == rest
        }),
{
    if let Some((frame, rest)) = next_frame(bytes) {
        if read_frame(frame) is Json {
            assert(decoded(bytes).values.skip(1) =~= decoded(rest).values);
        }
    }
}

/// Closing a stream reads what is left as a last frame: its value where it has one,
/// and an error where it cannot be read. White space is nothing left.
pub proof fn law_closing(bytes: Seq<u8>)
    ensures
        closed(bytes).rest.len() == 0,
        !holds_text(bytes) ==> closed(bytes).values.len() == 0 && closed(bytes).end is Done,
        holds_text(bytes) ==> ({
            &&& read_frame(bytes) matches FrameView::Json(value) ==> closed(bytes).values == seq![
                value,
            ] && closed(bytes).end is Done
            &&& read_frame(bytes) is Empty || read_frame(bytes) is Done ==> closed(
                bytes,
            ).values.len() == 0 && closed(bytes).end is Done
            &&& read_frame(bytes) matches FrameView::Failed(error) ==> closed(bytes).values.len()
                == 0 && closed(bytes).end == EndView::Failed(error)
        }),
{
}

/// A decoder whose stream is open reads what it kept and the next bytes in one piece,
/// and closes on what it kept; one whose stream has ended gives nothing more and stays
/// as it is.
pub proof fn law_decoders(decoder: DecoderView, chunk: Seq<u8>)
    ensures
        decoder.end is Open ==> decoder.fed(chunk).values == decoded(decoder.rest + chunk).values
            && decoder.fed(chunk).rest == decoded(decoder.rest + chunk).rest && decoder.fed(
            chunk,
        ).end == decoded(decoder.rest + chunk).end,
        decoder.end is Open ==> decoder.finished() == closed(decoder.rest),
        !(decoder.end is Open) ==> decoder.fed(chunk).values.len() == 0 && decoder.fed(chunk).rest
            == decoder.rest && decoder.fed(chunk).end == decoder.end,
        !(decoder.end is Open) ==> decoder.finished().values.len() == 0 && decoder.finished().end
            == decoder.end,
{
    if decoder.end is Open {
        let whole = decoded(decoder.rest + chunk).values;
        assert(Seq::<Value>::empty() + whole =~= whole);
    }
}

/// An end is seen as what it is.
pub proof fn law_ends_are_seen(end: StreamEnd)
    ensures
        end@ is Open <==> end is Open,
        end@ is Done <==> end is Done,
        end matches StreamEnd::Failed(error) ==> end@ == EndView::Failed(error@),
{
}

} // verus!
