//! Server-sent events.

use serde_json::Value;
use switchyard::backend::SwitchyardError;
use switchyard::sse::{
    decode_sse_frame, drain_next_sse_frame, has_non_whitespace_bytes, interpret,
    parse_json_sse_frame, split_lines, stream_read_failed, Decoded, ParsedSseFrame, SseDecoder,
    StreamEnd,
};

fn parse(text: &str) -> Value {
    match serde_json::from_str(text) {
        Ok(value) => value,
        Err(error) => panic!("{error}"),
    }
}

/// Feeds a stream in chunks of a size, and closes it where it is still open.
fn stream(bytes: &[u8], size: usize) -> (Vec<Value>, StreamEnd) {
    let mut decoder = SseDecoder::new();
    let mut values = Vec::new();
    for chunk in bytes.chunks(size) {
        let Decoded {
            values: mut more,
            end,
        } = decoder.feed(chunk);
        values.append(&mut more);
        if end != StreamEnd::Open {
            return (values, end);
        }
    }
    let last = decoder.finish();
    values.extend(last.values);
    (values, last.end)
}

#[test]
fn parses_anthropic_sse_json_frames() {
    let frame = parse_json_sse_frame(
        "event: message_start\ndata: {\"type\":\"message_start\",\"message\":{\"id\":\"m\"}}\n",
        "Anthropic",
        None,
    );
    match frame {
        Ok(ParsedSseFrame::Json(value)) => assert_eq!(value["type"], "message_start"),
        other => panic!("JSON frame should produce a JSON value, got {other:?}"),
    }
    assert_eq!(
        parse_json_sse_frame("event: ping\n\n", "Anthropic", None),
        Ok(ParsedSseFrame::Empty)
    );
}

#[test]
fn data_lines_are_joined_and_trimmed() {
    assert_eq!(
        parse_json_sse_frame(
            ": comment\r\ndata: {\"a\":\r\ndata:1}\r\nid: 7",
            "Anthropic",
            None
        ),
        Ok(ParsedSseFrame::Json(parse(r#"{"a":1}"#)))
    );
    assert_eq!(
        parse_json_sse_frame("data:   \n", "Anthropic", None),
        Ok(ParsedSseFrame::Empty)
    );
    // The join is a line feed, which a string may not hold.
    assert!(parse_json_sse_frame("data: \"a\ndata: b\"", "Anthropic", None).is_err());
}

#[test]
fn the_marker_ends_a_stream_only_where_it_is_one() {
    assert_eq!(
        parse_json_sse_frame("data: [DONE]", "Anthropic", Some("[DONE]")),
        Ok(ParsedSseFrame::Done)
    );
    assert!(parse_json_sse_frame("data: [DONE]", "Anthropic", None).is_err());
    assert_eq!(
        parse_json_sse_frame("data: []", "Anthropic", Some("[DONE]")),
        Ok(ParsedSseFrame::Json(parse("[]")))
    );
}

#[test]
fn data_that_is_no_json_is_an_error_with_the_parsers_words() {
    let words = match serde_json::from_str::<Value>("{") {
        Ok(_) => panic!("an open brace is no value"),
        Err(error) => error.to_string(),
    };
    assert_eq!(
        parse_json_sse_frame("data: {", "Provider", None),
        Err(SwitchyardError::Upstream(format!(
            "Provider stream returned invalid JSON: {words}"
        )))
    );
}

#[test]
fn data_is_read_by_what_it_parses_to() {
    let parsed = || Ok(parse("7"));
    assert_eq!(
        interpret("7", "Anthropic", Some("[DONE]"), parsed()),
        Ok(ParsedSseFrame::Json(parse("7")))
    );
    assert_eq!(
        interpret("[DONE]", "Anthropic", Some("[DONE]"), parsed()),
        Ok(ParsedSseFrame::Done)
    );
    assert_eq!(
        interpret("", "Anthropic", Some(""), parsed()),
        Ok(ParsedSseFrame::Empty)
    );
    assert_eq!(
        interpret("{", "Anthropic", None, Err("cut off".to_string())),
        Err(SwitchyardError::Upstream(
            "Anthropic stream returned invalid JSON: cut off".to_string()
        ))
    );
}

#[test]
fn lines_are_split_at_line_feeds() {
    assert_eq!(split_lines(""), vec![""]);
    assert_eq!(split_lines("a\n\nb\r\n"), vec!["a", "", "b\r", ""]);
}

#[test]
fn frames_end_at_empty_lines() {
    let mut buffer = b"one\n\ntwo\r\n\r\nthree\r\n\n".to_vec();
    assert_eq!(drain_next_sse_frame(&mut buffer), Some(b"one".to_vec()));
    assert_eq!(drain_next_sse_frame(&mut buffer), Some(b"two".to_vec()));
    assert_eq!(
        drain_next_sse_frame(&mut buffer),
        Some(b"three\r".to_vec())
    );
    assert_eq!(drain_next_sse_frame(&mut buffer), None);
    assert!(buffer.is_empty());
    let mut open = b"data: 1\r\n\r".to_vec();
    assert_eq!(drain_next_sse_frame(&mut open), None);
    assert_eq!(open, b"data: 1\r\n\r".to_vec());
}

#[test]
fn frames_are_utf8() {
    assert_eq!(
        decode_sse_frame("data: \"h\u{e9}\u{1f600}\"".as_bytes(), "Anthropic"),
        Ok("data: \"h\u{e9}\u{1f600}\"".to_string())
    );
    assert_eq!(
        decode_sse_frame(&[0x64, 0xff], "Anthropic"),
        Err(SwitchyardError::Upstream(
            "Anthropic stream returned invalid UTF-8".to_string()
        ))
    );
    assert!(decode_sse_frame(&[0xc0, 0x80], "Anthropic").is_err());
    assert!(decode_sse_frame(&[0xed, 0xa0, 0x80], "Anthropic").is_err());
}

#[test]
fn white_space_bytes_are_not_text() {
    assert!(!has_non_whitespace_bytes(b""));
    assert!(!has_non_whitespace_bytes(b" \t\r\n\x0c"));
    assert!(has_non_whitespace_bytes(b" \t\r\nx"));
    for byte in 0..=255u8 {
        assert_eq!(
            has_non_whitespace_bytes(&[byte]),
            !byte.is_ascii_whitespace()
        );
    }
}

#[test]
fn a_stream_decodes_the_same_however_it_is_cut() {
    let bytes = "event: a\ndata: {\"n\":1}\n\n: ping\n\ndata: {\"n\":\"\u{e9}\"}\r\n\r\ndata: 3\n\ndata: [DONE]\n\ndata: 4\n\n"
        .as_bytes();
    let whole = stream(bytes, bytes.len());
    assert_eq!(
        whole,
        (
            vec![parse(r#"{"n":1}"#), parse("{\"n\":\"\u{e9}\"}"), parse("3")],
            StreamEnd::Done
        )
    );
    for size in 1..bytes.len() {
        assert_eq!(stream(bytes, size), whole, "chunks of {size}");
    }
}

#[test]
fn a_last_frame_without_its_separator_is_kept() {
    assert_eq!(
        stream(b"data: 1\n\ndata: 2", 3),
        (vec![parse("1"), parse("2")], StreamEnd::Done)
    );
    assert_eq!(
        stream(b"data: 1\n\n\n \r\n", 64),
        (vec![parse("1")], StreamEnd::Done)
    );
    assert_eq!(
        stream(b"data: [DONE]", 64),
        (Vec::new(), StreamEnd::Done)
    );
}

#[test]
fn an_error_ends_a_stream_after_what_came_before_it() {
    let (values, end) = stream(b"data: 1\n\ndata: {\n\ndata: 2\n\n", 64);
    assert_eq!(values, vec![parse("1")]);
    assert!(matches!(
        end,
        StreamEnd::Failed(SwitchyardError::Upstream(_))
    ));
    let (values, end) = stream(b"data: 1\n\ndata: \xff\n\n", 64);
    assert_eq!(values, vec![parse("1")]);
    assert_eq!(
        end,
        StreamEnd::Failed(SwitchyardError::Upstream(
            "Anthropic stream returned invalid UTF-8".to_string()
        ))
    );
    assert_eq!(
        stream_read_failed("reset"),
        SwitchyardError::Upstream("Anthropic stream read failed: reset".to_string())
    );
}

#[test]
fn nothing_follows_the_end_of_a_stream() {
    let mut decoder = SseDecoder::new();
    let first = decoder.feed(b"data: 1\n\ndata: [DONE]\n\ndata: 2\n\nda");
    assert_eq!(first.values, vec![parse("1")]);
    assert_eq!(first.end, StreamEnd::Done);
    let second = decoder.feed(b"data: 3\n\n");
    assert!(second.values.is_empty());
    assert_eq!(second.end, StreamEnd::Done);
    let last = decoder.finish();
    assert!(last.values.is_empty());
    assert_eq!(last.end, StreamEnd::Done);
}

#[test]
fn a_failed_stream_stays_failed() {
    let failure = || {
        StreamEnd::Failed(SwitchyardError::Upstream(
            "Anthropic stream returned invalid UTF-8".to_string(),
        ))
    };
    let mut decoder = SseDecoder::new();
    assert_eq!(decoder.feed(b"data: \xff\n\ndata: 1\n\n").end, failure());
    let more = decoder.feed(b"data: 2\n\n");
    assert!(more.values.is_empty());
    assert_eq!(more.end, failure());
    let last = decoder.finish();
    assert!(last.values.is_empty());
    assert_eq!(last.end, failure());
}
