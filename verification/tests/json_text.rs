//! Reading and changing JSON values.

use serde_json::Value;
use switchyard::json_text::{flag_of, merge_target_extra_body, set_json_model, text_of};

fn parse(text: &str) -> Value {
    match serde_json::from_str(text) {
        Ok(value) => value,
        Err(error) => panic!("{error}"),
    }
}

#[test]
fn members_are_read_by_their_type() {
    let body = parse(r#"{"stream":true,"off":false,"model":"m","n":1,"o":{"stream":true}}"#);
    assert_eq!(flag_of(&body, "stream"), Some(true));
    assert_eq!(flag_of(&body, "off"), Some(false));
    assert_eq!(flag_of(&body, "model"), None);
    assert_eq!(flag_of(&body, "missing"), None);
    assert_eq!(text_of(&body, "model"), Some("m"));
    assert_eq!(text_of(&body, "stream"), None);
    assert_eq!(text_of(&body, "n"), None);
    assert_eq!(text_of(&body, "missing"), None);
    for other in ["null", "[\"model\"]", "\"model\"", "3"] {
        assert_eq!(text_of(&parse(other), "model"), None);
        assert_eq!(flag_of(&parse(other), "stream"), None);
    }
}

#[test]
fn the_model_that_is_set_is_read_back() {
    let mut body = parse(r#"{"model":"before","n":1}"#);
    set_json_model(&mut body, "after");
    assert_eq!(text_of(&body, "model"), Some("after"));
    assert_eq!(body, parse(r#"{"model":"after","n":1}"#));
    let mut bare = parse("{}");
    set_json_model(&mut bare, "only");
    assert_eq!(bare, parse(r#"{"model":"only"}"#));
    let mut list = parse("[]");
    set_json_model(&mut list, "none");
    assert_eq!(list, parse("[]"));
}

#[test]
fn the_caller_wins_a_conflict() {
    let mut body = parse(r#"{"a":1,"b":{"x":1}}"#);
    merge_target_extra_body(&mut body, &Some(parse(r#"{"a":2,"b":{"y":2},"c":3}"#)));
    assert_eq!(body, parse(r#"{"a":1,"b":{"x":1},"c":3}"#));
    let mut untouched = parse(r#"{"a":1}"#);
    merge_target_extra_body(&mut untouched, &None);
    merge_target_extra_body(&mut untouched, &Some(parse("[1]")));
    assert_eq!(untouched, parse(r#"{"a":1}"#));
    let mut text = parse("\"a\"");
    merge_target_extra_body(&mut text, &Some(parse(r#"{"a":2}"#)));
    assert_eq!(text, parse("\"a\""));
}
