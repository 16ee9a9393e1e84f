//! Text, dates, ids and JSON.

use git_forge::calendar::{
    civil_from_days, clock_nanos, clock_second, epoch_nanos, epoch_second,
    format_rfc3339_system_time, format_rfc3339_utc, rfc3339_utc_now,
};
use git_forge::event::{parse_json_value, uuid_v4_from_seed, is_uuid_v4, Event, EventKind, JsonObject, JsonValue};
use git_forge::json::{json_object, json_string, json_value};
use git_forge::oid::Oid;
use git_forge::text::{
    chars_of, comes_before, decimal_string, digits_to_u64, is_whitespace, join_from, position_of,
    signed_decimal_string, split_lines, trim_end_string, trim_string,
};

#[test]
fn white_space_is_what_std_calls_white_space() {
    for n in 0..=0x10ffffu32 {
        if let Some(c) = char::from_u32(n) {
            assert_eq!(is_whitespace(c), c.is_whitespace(), "{n:x}");
        }
    }
}

#[test]
fn lines_are_split_as_std_splits_them() {
    for s in ["", "a", "a\n", "a\r\nb", "a\r", "a\n\nb\n", "\n", "\r\n", "a\rb\n\r\n"] {
        let ours: Vec<String> = split_lines(&chars_of(s))
            .iter()
            .map(|l| l.iter().collect())
            .collect();
        let theirs: Vec<&str> = s.lines().collect();
        assert_eq!(ours, theirs, "{s:?}");
    }
}

#[test]
fn strings_are_trimmed_as_std_trims_them() {
    for s in ["", "  ", " a b ", "\u{a0}x\u{3000}", "\tx\n", "x"] {
        assert_eq!(trim_string(s), s.trim());
        assert_eq!(trim_end_string(s), s.trim_end());
    }
    assert_eq!(
        join_from(&["x".to_string(), "a".to_string(), "b".to_string()], 1, " "),
        "a b"
    );
}

#[test]
fn numbers_are_written_and_read() {
    assert_eq!(decimal_string(0), "0");
    assert_eq!(decimal_string(u64::MAX), "18446744073709551615");
    assert_eq!(signed_decimal_string(i64::MIN), "-9223372036854775808");
    let v = chars_of("18446744073709551615");
    assert_eq!(digits_to_u64(&v, 0, 20), Some(u64::MAX));
    let v = chars_of("18446744073709551616");
    assert_eq!(digits_to_u64(&v, 0, 20), None);
    assert!(decimal_string(10) != decimal_string(100));
    assert_eq!(
        position_of(&chars_of("abcabd"), &chars_of("abd")),
        Some(3)
    );
    assert_eq!(position_of(&chars_of("ab"), &chars_of("abd")), None);
}

#[test]
fn texts_are_ordered_as_std_orders_them() {
    let words = ["", "a", "ab", "b", "é", "中", "🚀", "a\u{0}"];
    for a in words {
        for b in words {
            assert_eq!(comes_before(a, b), a < b, "{a:?} {b:?}");
        }
    }
}

#[test]
fn dates_around_leap_days() {
    assert_eq!(civil_from_days(0), (1970, 1, 1));
    assert_eq!(civil_from_days(-1), (1969, 12, 31));
    assert_eq!(civil_from_days(11016), (2000, 2, 29));
    assert_eq!(civil_from_days(11017), (2000, 3, 1));
    assert_eq!(civil_from_days(-25567), (1900, 1, 1));
    assert_eq!(civil_from_days(-719468), (0, 3, 1));
    assert_eq!(format_rfc3339_utc(951782400), "2000-02-29T00:00:00Z");
    assert_eq!(format_rfc3339_utc(-1), "1969-12-31T23:59:59Z");
    assert_eq!(format_rfc3339_utc(4107542399), "2100-02-28T23:59:59Z");
    assert_eq!(format_rfc3339_utc(4107542400), "2100-03-01T00:00:00Z");
}

#[test]
fn time_stamps_sort_as_their_seconds() {
    let seconds = [
        -62_167_219_200i64,
        -1,
        0,
        59,
        60,
        3_600,
        86_399,
        86_400,
        951_782_399,
        951_782_400,
        1_000_000_000,
        253_402_300_799,
    ];
    for pair in seconds.windows(2) {
        let (a, b) = (format_rfc3339_utc(pair[0]), format_rfc3339_utc(pair[1]));
        assert_eq!((a.len(), b.len()), (20, 20));
        assert!(a < b, "{a} {b}");
    }
    assert_eq!(format_rfc3339_utc(seconds[0]), "0000-01-01T00:00:00Z");
    assert_eq!(format_rfc3339_utc(seconds[11]), "9999-12-31T23:59:59Z");
}

#[test]
fn the_clock_is_read_to_the_second_that_it_lies_in() {
    assert_eq!(epoch_second(Ok((5, 999_999_999))), 5);
    assert_eq!(epoch_second(Err((5, 0))), -5);
    assert_eq!(epoch_second(Err((5, 1))), -6);
    assert_eq!(epoch_second(Ok((u64::MAX, 0))), i64::MAX);
    assert_eq!(epoch_second(Err((u64::MAX, 0))), i64::MIN);
    assert_eq!(epoch_nanos(Ok((2, 3))), 2_000_000_003);
    assert_eq!(epoch_nanos(Err((2, 3))), 0);
    let t = std::time::UNIX_EPOCH + std::time::Duration::new(1_000_000_000, 7);
    assert_eq!(clock_second(t), 1_000_000_000);
    assert_eq!(clock_nanos(t), 1_000_000_000_000_000_007);
    assert_eq!(format_rfc3339_system_time(t), "2001-09-09T01:46:40Z");
    let early = std::time::UNIX_EPOCH - std::time::Duration::from_millis(1);
    assert_eq!(format_rfc3339_system_time(early), "1969-12-31T23:59:59Z");
    assert_eq!(rfc3339_utc_now().len(), 20);
}

#[test]
fn ids_from_seeds_have_the_shape_of_a_uuid() {
    for seed in [0, 1, 42, u64::MAX] {
        assert!(is_uuid_v4(&uuid_v4_from_seed(seed)));
    }
    assert!(uuid_v4_from_seed(1) != uuid_v4_from_seed(2));
    assert_eq!(uuid_v4_from_seed(7), uuid_v4_from_seed(7));
}

#[test]
fn object_ids_are_read_and_written() {
    let full = "0123456789abcdef0123456789abcdef01234567";
    let o = Oid::from_hex(full).unwrap();
    assert_eq!(o.to_hex(), full);
    assert_eq!(
        Oid::from_hex("0123456789ABCDEF0123456789ABCDEF01234567"),
        Some(o)
    );
    // Missing digits count as zeros.
    assert_eq!(
        Oid::from_hex("Ab").unwrap().to_hex(),
        "ab00000000000000000000000000000000000000"
    );
    assert_eq!(Oid::from_hex(""), None);
    assert_eq!(Oid::from_hex("xyz"), None);
    assert_eq!(Oid::from_hex(&format!("{full}0")), None);
    assert_eq!(Oid::from_hex("é"), None);
    let theirs = git2::Oid::from_str("Ab").unwrap();
    assert_eq!(Oid::from_hex("Ab").unwrap().to_hex(), theirs.to_string());
}

#[test]
fn json_is_written_in_the_order_of_the_keys() {
    let mut m = JsonObject::new();
    m.insert("b".to_string(), JsonValue::Number(-1));
    m.insert("a".to_string(), JsonValue::Array(vec![JsonValue::Null, JsonValue::Bool(true)]));
    m.insert("b".to_string(), JsonValue::String("x\u{1}\u{1f}\"\\\n\r\t/é".to_string()));
    assert_eq!(
        json_object(&m),
        "{\"a\":[null,true],\"b\":\"x\\u0001\\u001f\\\"\\\\\\n\\r\\t/é\"}"
    );
    assert_eq!(m.get("a").is_some(), true);
    assert_eq!(m.get("c").is_none(), true);
    assert_eq!(json_string(""), "\"\"");
    assert_eq!(json_value(&JsonValue::Object(JsonObject::new())), "{}");
    let v = JsonValue::Object(m);
    assert_eq!(parse_json_value(&json_value(&v)), Some(v));
}

#[test]
fn json_objects_keep_the_last_of_equal_keys() {
    assert_eq!(
        parse_json_value("{\"a\":1,\"a\":2}").map(|v| json_value(&v)),
        Some("{\"a\":2}".to_string())
    );
}

#[test]
fn json_escapes_have_exactly_four_hexadecimal_digits() {
    assert_eq!(
        parse_json_value(r#""\u0041\u00e9\u00E9""#).and_then(|v| v.as_str().map(String::from)),
        Some("Aéé".to_string())
    );
    // A sign is no digit.
    assert!(parse_json_value(r#""\u+041""#).is_none());
    assert!(parse_json_value(r#""\u-041""#).is_none());
    assert!(parse_json_value(r#""\uD83D\u+E00""#).is_none());
    assert!(parse_json_value(r#""\u00g1""#).is_none());
    assert!(parse_json_value(r#""\u00""#).is_none());
}

#[test]
fn events_are_written_field_by_field() {
    let mut body = JsonObject::new();
    body.insert("title".to_string(), JsonValue::String("T".to_string()));
    let e = Event::from_seed(5, 0, EventKind::IssueCreated, "issue", 7, "a@x", body);
    let json = e.to_json();
    assert_eq!(
        json,
        format!(
            "{{\"v\":1,\"id\":\"{}\",\"kind\":\"issue.created\",\"entity\":\"issue\",\"entity_id\":7,\"ts\":\"1970-01-01T00:00:00Z\",\"actor\":\"a@x\",\"body\":{{\"title\":\"T\"}}}}",
            e.id
        )
    );
    assert_eq!(Event::from_json(&json), Some(e));
}

#[test]
fn an_entity_number_beyond_the_wire_form_does_not_read_back() {
    let mut e = Event::from_seed(5, 0, EventKind::IssueClose, "issue", 1, "a@x", JsonObject::new());
    e.entity_id = 9223372036854775807;
    assert!(Event::from_json(&e.to_json()).is_some());
    e.entity_id = 9223372036854775808;
    assert!(Event::from_json(&e.to_json()).is_none());
}

#[test]
fn json_reads_back_with_white_space_around_it() {
    let mut m = JsonObject::new();
    m.insert("a".to_string(), JsonValue::Array(vec![JsonValue::Number(-7), JsonValue::Null]));
    for v in [
        JsonValue::Object(m),
        JsonValue::Number(42),
        JsonValue::Bool(false),
        JsonValue::String(" x\n".to_string()),
    ] {
        let padded = format!(" \t\r\n{}\n \r\t", json_value(&v));
        assert_eq!(parse_json_value(&padded), Some(v));
    }
    // Other white space than that of JSON is refused.
    assert!(parse_json_value("\u{a0}1").is_none());
    assert!(parse_json_value("1\u{b}").is_none());
}

#[test]
fn written_json_holds_no_control_character() {
    let all: String = (0u8..0x21).map(|b| b as char).collect();
    let mut m = JsonObject::new();
    m.insert(all.clone(), JsonValue::Array(vec![JsonValue::String(all.clone())]));
    let v = JsonValue::Object(m);
    let text = json_value(&v);
    assert!(text.chars().all(|c| c >= ' '));
    assert_eq!(parse_json_value(&text), Some(v));
    let mut body = JsonObject::new();
    body.insert("body".to_string(), JsonValue::String(all));
    let e = Event::from_seed(5, 0, EventKind::IssueComment, "issue", 7, "a\n@x", body);
    assert_eq!(e.to_json().lines().count(), 1);
    assert_eq!(Event::from_json(&format!("\n{}\n", e.to_json())), Some(e));
}
