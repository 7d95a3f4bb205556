use inductor::json::{self, BelowZero, Json};
use inductor::order::sort;
use inductor::text::{
    cap_bytes, count_text, decimal_text, eq_ignore_ascii_case, is_whitespace, lines_of, parse_u64,
    parse_usize, replace_first_text, replace_text, split_lines_lossless, split_whitespace,
    strip_prefix, to_ascii_lowercase, trim, trim_start_matches, width_of,
};
use inductor::textmap::TextMap;
use inductor::wildcard::wildcard_match;

#[test]
fn white_space_is_that_of_the_language() {
    for code in 0..0x110000u32 {
        if let Some(c) = char::from_u32(code) {
            assert_eq!(is_whitespace(c), c.is_whitespace(), "{code:x}");
            assert_eq!(width_of(c), c.len_utf8(), "{code:x}");
        }
    }
}

#[test]
fn texts_are_cut_as_usual() {
    for s in ["", " a ", "a\u{2003}b", "\t x y \n", "one\r\ntwo\n\nthree", "\n", "é x\r"] {
        assert_eq!(trim(s), s.trim());
        assert_eq!(lines_of(s), s.lines().collect::<Vec<_>>());
        assert_eq!(split_whitespace(s), s.split_whitespace().collect::<Vec<_>>());
        assert_eq!(to_ascii_lowercase(s), s.to_ascii_lowercase());
        assert_eq!(split_lines_lossless(s).concat(), s);
    }
    assert_eq!(split_lines_lossless("a\r\nb\nc"), vec!["a\r\n", "b\n", "c"]);
}

#[test]
fn texts_are_searched_as_usual() {
    for (s, p, q) in [("aaaa", "aa", "b"), ("abcabc", "bc", ""), ("x", "y", "z"), ("éaé", "é", "aé")] {
        assert_eq!(count_text(s, p), s.matches(p).count());
        assert_eq!(replace_text(s, p, q), s.replace(p, q));
        assert_eq!(replace_first_text(s, p, q), s.replacen(p, q, 1));
        assert_eq!(strip_prefix(s, p).as_deref(), s.strip_prefix(p));
        assert_eq!(trim_start_matches(s, p), s.trim_start_matches(p));
    }
    assert!(eq_ignore_ascii_case("AbC", "aBc"));
    assert!(!eq_ignore_ascii_case("É", "é"));
}

#[test]
fn numbers_are_read_and_written() {
    for n in [0, 9, 10, 12345, u64::MAX] {
        assert_eq!(decimal_text(n), n.to_string());
        assert_eq!(parse_u64(&n.to_string()), Some(n));
    }
    for s in ["", "+", "+7", "-7", "7a", "18446744073709551616", "007"] {
        assert_eq!(parse_u64(s), s.parse::<u64>().ok(), "{s}");
        assert_eq!(parse_usize(s), s.parse::<usize>().ok(), "{s}");
    }
}

#[test]
fn a_text_is_capped_between_characters() {
    assert_eq!(cap_bytes("aé", 1), ("a".to_string(), true));
    assert_eq!(cap_bytes("aé", 2), ("a".to_string(), true));
    assert_eq!(cap_bytes("aé", 3), ("aé".to_string(), false));
}

#[test]
fn wildcards_stand_for_any_text() {
    assert!(wildcard_match("src/*.rs", "src/bin/main.rs"));
    assert!(!wildcard_match("src/*.rs", "README.md"));
    assert!(wildcard_match("*", ""));
    assert!(wildcard_match("a?c", "abc"));
    assert!(!wildcard_match("a?c", "ac"));
    assert!(wildcard_match("a.c", "a.c"));
    assert!(!wildcard_match("a.c", "abc"));
}

#[test]
fn texts_are_sorted_as_usual() {
    let list: Vec<String> = ["b", "", "é", "a", "Z", "ab", "a"]
        .iter()
        .map(|s| s.to_string())
        .collect();
    let mut expected = list.clone();
    expected.sort();
    assert_eq!(sort(&list), expected);
}

#[test]
fn a_map_holds_the_latest_value() {
    let mut map = TextMap::new();
    map.insert("a", "1");
    map.insert("b", "2");
    map.insert("a", "3");
    assert_eq!(map.get("a").as_deref(), Some("3"));
    map.remove("a");
    assert_eq!(map.get("a"), None);
    assert_eq!(map.get("b").as_deref(), Some("2"));
}

#[test]
fn json_is_read_and_printed() {
    let value = json::parse("{\"b\":[1,-2,2.5,null,true],\"a\":\"x\\\"y\"}").unwrap();
    assert_eq!(value.get_str("a"), Some("x\"y"));
    let items = value.get_array("b").unwrap();
    assert!(matches!(items[0], Json::Unsigned(1)));
    assert!(matches!(&items[1], Json::Negative(n) if n.get() == -2));
    assert!(matches!(items[2], Json::Other(_)));
    assert!(matches!(items[3], Json::Null));
    assert!(matches!(items[4], Json::Bool(true)));
    assert_eq!(value.to_text(), "{\"a\":\"x\\\"y\",\"b\":[1,-2,2.5,null,true]}");
    assert!(json::parse("{").is_err());
}

#[test]
fn json_is_read_back_from_its_text() {
    let lowest = Json::Negative(BelowZero::new(i64::MIN).unwrap());
    assert!(BelowZero::new(0).is_none());
    let mut value = Json::Array(vec![lowest, Json::Unsigned(u64::MAX), Json::text("\u{1}\"\\é")]);
    for _ in 0..126 {
        value = Json::Array(vec![value]);
    }
    let text = value.to_text();
    let read = json::parse(&text).unwrap();
    assert_eq!(format!("{read:?}"), format!("{value:?}"));
    let deeper = Json::Array(vec![value]).to_text();
    assert!(json::parse(&deeper).is_err());
}

#[test]
fn json_is_built_member_by_member() {
    let value = Json::object()
        .with("name", Json::text("list_dir"))
        .with("count", Json::Unsigned(2))
        .with("name", Json::text("glob"));
    assert_eq!(value.get_str("name"), Some("glob"));
    assert_eq!(value.get_u64("count"), Some(2));
    assert_eq!(value.to_text(), "{\"count\":2,\"name\":\"glob\"}");
}
