use qr_server::decimal;
use qr_server::hex;
use qr_server::json;
use qr_server::json::Json;
use qr_server::powershell;
use qr_server::text;
use qr_server::text_map::TextMap;
use qr_server::utf16;

fn chars(s: &str) -> Vec<char> {
    s.chars().collect()
}

fn strings(list: Vec<Vec<char>>) -> Vec<String> {
    list.into_iter().map(|c| c.into_iter().collect()).collect()
}

#[test]
fn texts_are_split_and_replaced() {
    assert_eq!(strings(text::split_on(&chars("a||b"), &chars("|"))), vec!["a", "", "b"]);
    assert_eq!(strings(text::split_on(&chars(""), &chars("|"))), vec![""]);
    assert_eq!(text::string_of(&text::replace_all(&chars("aaa"), &chars("aa"), &chars("b"))), "ba");
    assert_eq!(text::position(&chars("abcabc"), &chars("ca")), Some(2));
    assert_eq!(text::position(&chars("ab"), &chars("abc")), None);
    assert_eq!(text::string_of(text::strip_prefixes(&chars("ababc"), &chars("ab"))), "c");
    assert!(text::contains("中文字", "文"));
}

#[test]
fn texts_are_trimmed() {
    assert_eq!(text::trimmed_str("\u{3000} a\u{85}"), "a");
    assert_eq!(text::trimmed_str("\u{200b}"), "\u{200b}");
    assert_eq!(text::string_of(text::trimmed_of(&chars("\"\"a\""), '"')), "a");
    assert_eq!(text::string_of(text::trimmed_end_of(&chars("/a//"), '/')), "/a");
    for c in '\0'..='\u{ffff}' {
        assert_eq!(text::is_white_space(c), c.is_whitespace());
    }
}

#[test]
fn lines_end_as_in_files() {
    for s in ["", "a", "a\n", "a\r\nb", "\n\n", "a\r", "\r\n\r", "a\nb\r\nc"] {
        let expected: Vec<String> = s.lines().map(str::to_string).collect();
        assert_eq!(strings(text::lines_of(&chars(s))), expected);
    }
}

#[test]
fn numbers_are_written_and_read() {
    assert_eq!(decimal::signed_text(i64::MIN), i64::MIN.to_string());
    assert_eq!(decimal::unsigned_text(u128::MAX), u128::MAX.to_string());
    assert_eq!(decimal::option_i32_text(Some(-3)), "Some(-3)");
    for s in ["", "+", "-", "+1", "-0", "007", "9223372036854775807", "9223372036854775808", "-9223372036854775808", "1 ", "１"] {
        assert_eq!(decimal::parse_i64_str(s), s.parse::<i64>().ok());
        assert_eq!(decimal::parse_usize(&chars(s)), s.parse::<usize>().ok());
    }
}

#[test]
fn hexadecimal_digits_are_read() {
    assert_eq!(hex::decode_hex(&chars("7c")), Some(vec![0x7c]));
    assert_eq!(hex::decode_hex(&chars("E4b8AD")), Some(vec![0xe4, 0xb8, 0xad]));
    assert_eq!(hex::decode_hex(&chars("+f")), Some(vec![15]));
    assert_eq!(hex::decode_hex(&chars("")), None);
    assert_eq!(hex::decode_hex(&chars("7")), None);
    assert_eq!(hex::decode_hex(&chars("-1")), None);
    assert_eq!(hex::decode_hex(&chars("7g")), None);
}

#[test]
fn code_units_are_those_of_the_standard_library() {
    let s = "a中😀\u{10ffff}\u{e000}";
    let expected: Vec<u16> = s.encode_utf16().collect();
    assert_eq!(utf16::code_units(s), expected);
    let bytes: Vec<u8> = s.encode_utf16().flat_map(|u| u.to_le_bytes()).collect();
    assert_eq!(utf16::little_endian_bytes(s), bytes);
}

#[test]
fn quotes_are_doubled() {
    assert_eq!(powershell::quote("'a''b"), "''a''''b");
    assert_eq!(powershell::quote(""), "");
}

#[test]
fn json_values_are_read_and_written() {
    let value = json::parse(r#"{"b":[1,2.5,-3],"a":"x","a":"y","n":null,"t":true}"#).unwrap();
    assert_eq!(value.get_str("a"), Some("y"));
    assert!(value.get("b").unwrap().is_array());
    assert!(!value.get("b").unwrap().is_scalar());
    assert!(value.get("t").unwrap().is_scalar());
    assert!(value.get("zz").is_none());
    assert_eq!(value.to_text(), r#"{"a":"y","b":[1,2.5,-3],"n":null,"t":true}"#);
    assert!(json::parse("{").unwrap_err().contains("EOF"));
    let twice = Json::Object(vec![
        ("k".to_string(), Json::Text("first".to_string())),
        ("k".to_string(), Json::Text("second".to_string())),
    ]);
    assert_eq!(twice.get_str("k"), Some("second"));
    assert_eq!(twice.to_text(), r#"{"k":"second"}"#);
    assert_eq!(twice.to_pretty_text().unwrap(), "{\n  \"k\": \"second\"\n}");
}

#[test]
fn nested_values_are_read_back() {
    let nested = |depth: usize| format!("{}{}", "[".repeat(depth), "]".repeat(depth));
    let deepest = nested(json::MAX_DEPTH);
    assert_eq!(json::parse(&deepest).unwrap().to_text(), deepest);
    assert!(json::parse(&nested(json::MAX_DEPTH + 1)).unwrap_err().contains("recursion limit"));
    let mixed = r#"{"a":{"b":[{},[],[null,{"c":-1}]]},"d":"\u0001\"中"}"#;
    assert_eq!(json::parse(mixed).unwrap().to_text(), mixed);
}

#[test]
fn exponents_are_read_back() {
    for text in ["1e-7", "1e21", "2.5e-9", "-1.25e20", "123456789012345e-22", "0.000001"] {
        let written = json::parse(text).unwrap().to_text();
        assert_eq!(json::parse(&written).unwrap().to_text(), written);
    }
    assert_eq!(json::parse("1e-7").unwrap().to_text(), "1e-7");
    assert_eq!(json::parse("1e21").unwrap().to_text(), "1e+21");
}

#[test]
fn objects_with_the_raw_key_are_not_read_back() {
    let raw = Json::Object(vec![(json::RAW_KEY.to_string(), Json::Text("[1]".to_string()))]);
    let written = raw.to_text();
    assert_eq!(written, r#"{"$serde_json::private::RawValue":"[1]"}"#);
    assert_eq!(json::parse(&written).unwrap().to_text(), "[1]");
}

#[test]
fn short_decimals_are_read_back() {
    for text in ["0.1", "-0.1", "198.4", "0.00001", "99999999999999.9", "1.0", "-0.0", "0.3"] {
        let value = json::parse(text).unwrap();
        assert_eq!(value.to_text(), text);
        assert_eq!(value.to_pretty_text().unwrap(), text);
    }
    let design = r#"{"panels":[{"height":70.5}]}"#;
    let pretty = json::parse(design).unwrap().to_pretty_text().unwrap();
    assert!(pretty.contains('\n'));
    assert_eq!(json::parse(&pretty).unwrap().to_text(), design);
}

#[test]
fn maps_hold_each_key_once() {
    let mut map: TextMap<u32> = TextMap::new();
    map.insert("a".to_string(), 1);
    map.insert("b".to_string(), 2);
    map.insert("a".to_string(), 3);
    assert_eq!(map.get("a"), Some(&3));
    assert_eq!(map.entries().len(), 2);
    assert_eq!(map.remove("a"), Some(3));
    assert_eq!(map.remove("a"), None);
    assert_eq!(map.get("b"), Some(&2));
}
