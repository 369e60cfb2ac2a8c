//! Texts, held against std's own methods.

use switchyard::backend::{comes_before, ExtraHeaders};
use switchyard::text::{
    chars_of, contains, ends_with, is_blank, is_white_space, starts_with, text_eq, trim,
    trim_end_matches,
};

const TEXTS: [&str; 12] = [
    "",
    "a",
    "/",
    "//",
    "a/",
    "/v1",
    "x/v1//",
    " a b ",
    "\u{2003}\u{e9}\u{1f600}\u{85}",
    "\r\n",
    "aaa",
    "\u{7f}\u{80}",
];

#[test]
fn white_space_is_stds() {
    for code in 0..=0x10ffffu32 {
        if let Some(c) = char::from_u32(code) {
            assert_eq!(is_white_space(c), c.is_whitespace(), "{code:x}");
        }
    }
}

#[test]
fn searches_are_stds() {
    for a in TEXTS {
        assert_eq!(is_blank(a), a.trim().is_empty());
        assert_eq!(trim(a), a.trim());
        assert_eq!(trim_end_matches(a, '/'), a.trim_end_matches('/'));
        assert_eq!(chars_of(a), a.chars().collect::<Vec<char>>());
        for b in TEXTS {
            assert_eq!(text_eq(a, b), a == b);
            assert_eq!(contains(a, b), a.contains(b), "{a:?} in {b:?}");
            assert_eq!(starts_with(a, b), a.starts_with(b));
            assert_eq!(ends_with(a, b), a.ends_with(b));
            assert_eq!(switchyard::text::concat(a, b), format!("{a}{b}"));
            assert_eq!(comes_before(a, b), a < b, "{a:?} < {b:?}");
        }
    }
}

#[test]
fn headers_stay_in_order_and_the_last_value_stands() {
    let mut headers = ExtraHeaders::new();
    let mut reference = std::collections::BTreeMap::new();
    for (i, name) in ["m", "z", "a", "m", "b", "", "z", "zz"].iter().enumerate() {
        let value = i.to_string();
        headers = headers.with(name, &value);
        reference.insert(name.to_string(), value);
    }
    let held: Vec<(String, String)> = headers
        .entries()
        .iter()
        .map(|header| (header.name.clone(), header.value.clone()))
        .collect();
    assert_eq!(held, reference.into_iter().collect::<Vec<_>>());
    assert_eq!(headers.copy(), headers);
}
