//! Timestamps in JSON values.

use hope_core::json::{json_from, parse_json, Json};
use hope_core::time::{can_tell, Timestamp};
use hope_core::tz_convert::{
    convert_timestamps_to_local, looks_like_timestamp, rfc3339_of_zoneless_time,
};

fn text(s: &str) -> Json {
    Json::Text(s.to_string())
}

fn number(s: &str) -> Json {
    Json::Number(s.to_string())
}

fn text_of(json: &Json) -> &str {
    match json {
        Json::Text(s) => s,
        _ => panic!("not a text"),
    }
}

fn converted(s: &str, zone: &str) -> String {
    let mut v = text(s);
    convert_timestamps_to_local(&mut v, zone);
    text_of(&v).to_string()
}

#[test]
fn converts_rfc3339_utc_to_shanghai() {
    let mut v = Json::Text("2026-06-27T01:30:00+00:00".to_string());
    convert_timestamps_to_local(&mut v, "Asia/Shanghai");
    // 01:30 UTC = 09:30 Shanghai
    assert_eq!(text_of(&v), "2026-06-27T09:30:00+08:00");
}

#[test]
fn converts_z_suffix_to_shanghai() {
    let mut v = Json::Text("2026-06-27T01:30:00Z".to_string());
    convert_timestamps_to_local(&mut v, "Asia/Shanghai");
    assert_eq!(text_of(&v), "2026-06-27T09:30:00+08:00");
}

#[test]
fn converts_subsecond_precision() {
    let mut v = Json::Text("2026-06-27T01:30:00.123456+00:00".to_string());
    convert_timestamps_to_local(&mut v, "Asia/Shanghai");
    assert_eq!(text_of(&v), "2026-06-27T09:30:00.123456+08:00");
}

#[test]
fn converts_sqlite_datetime_format() {
    let mut v = Json::Text("2026-06-27 01:30:00".to_string());
    convert_timestamps_to_local(&mut v, "Asia/Shanghai");
    assert_eq!(text_of(&v), "2026-06-27T09:30:00+08:00");
}

#[test]
fn leaves_non_timestamp_strings_untouched() {
    let mut v = Json::Text("hello world".to_string());
    convert_timestamps_to_local(&mut v, "Asia/Shanghai");
    assert_eq!(text_of(&v), "hello world");
}

#[test]
fn leaves_short_strings_untouched() {
    let mut v = Json::Text("2026".to_string());
    convert_timestamps_to_local(&mut v, "Asia/Shanghai");
    assert_eq!(text_of(&v), "2026");
}

#[test]
fn converts_nested_object_timestamps() {
    let mut v = Json::Object(vec![
        ("created_at".into(), text("2026-06-27T01:30:00+00:00")),
        ("title".into(), text("my session")),
        (
            "nested".into(),
            Json::Object(vec![
                ("timestamp".into(), text("2026-06-27T02:00:00Z")),
                ("count".into(), number("42")),
            ]),
        ),
    ]);
    convert_timestamps_to_local(&mut v, "Asia/Shanghai");
    assert_eq!(v.get("created_at").unwrap(), &text("2026-06-27T09:30:00+08:00"));
    assert_eq!(v.get("title").unwrap(), &text("my session"));
    let nested = v.get("nested").unwrap();
    assert_eq!(nested.get("timestamp").unwrap(), &text("2026-06-27T10:00:00+08:00"));
    assert_eq!(nested.get("count").unwrap(), &number("42"));
}

#[test]
fn converts_array_timestamps() {
    let mut v = Json::Array(vec![
        text("2026-06-27T01:30:00+00:00"),
        text("not a timestamp"),
        number("42"),
    ]);
    convert_timestamps_to_local(&mut v, "Asia/Shanghai");
    assert_eq!(
        v,
        Json::Array(vec![
            text("2026-06-27T09:30:00+08:00"),
            text("not a timestamp"),
            number("42"),
        ])
    );
}

#[test]
fn no_op_for_unknown_timezone() {
    let mut v = Json::Text("2026-06-27T01:30:00+00:00".to_string());
    convert_timestamps_to_local(&mut v, "Invalid/Zone");
    // Unchanged — unknown zone
    assert_eq!(text_of(&v), "2026-06-27T01:30:00+00:00");
}

#[test]
fn no_op_for_utc_timezone() {
    let mut v = Json::Text("2026-06-27T01:30:00+00:00".to_string());
    convert_timestamps_to_local(&mut v, "UTC");
    // UTC → UTC, still converts (offset changes from +00:00 to Z or stays)
    // The important thing is it doesn't crash or corrupt.
    assert!(text_of(&v).contains("2026-06-27T01:30:00"));
}

// ── Details ──────────────────────────────────────────────────────

#[test]
fn same_instant_becomes_the_same_text() {
    let expected = "2026-06-27T03:30:00+02:00";
    assert_eq!(converted("2026-06-27T01:30:00Z", "Europe/Berlin"), expected);
    assert_eq!(converted("2026-06-27T09:30:00+08:00", "Europe/Berlin"), expected);
    assert_eq!(converted("2026-06-26t21:30:00.000-04:00", "Europe/Berlin"), expected);
    assert_eq!(converted("2026-06-27 01:30:00", "Europe/Berlin"), expected);
    assert_eq!(converted("2026-06-27T01:30:00", "Europe/Berlin"), expected);
}

#[test]
fn times_without_a_zone_are_in_utc() {
    assert_eq!(converted("2026-06-27T01:30:00", "Asia/Shanghai"), "2026-06-27T09:30:00+08:00");
    assert_eq!(converted("2026-06-27 01:30:00", "Asia/Shanghai"), "2026-06-27T09:30:00+08:00");
}

#[test]
fn second_conversion_of_a_value_changes_nothing() {
    let mut v = Json::Object(vec![
        ("at".into(), text("2026-06-27T01:30:00")),
        ("2026-06-27 01:30:00".into(), Json::Array(vec![text("2026-01-01T00:00:00.25Z"), Json::Null])),
    ]);
    convert_timestamps_to_local(&mut v, "Asia/Shanghai");
    let expected = Json::Object(vec![
        ("at".into(), text("2026-06-27T09:30:00+08:00")),
        (
            "2026-06-27 01:30:00".into(),
            Json::Array(vec![text("2026-01-01T08:00:00.250+08:00"), Json::Null]),
        ),
    ]);
    assert_eq!(v, expected);
    convert_timestamps_to_local(&mut v, "Asia/Shanghai");
    assert_eq!(v, expected);
}

#[test]
fn second_conversion_changes_nothing() {
    for s in ["2026-06-27T01:30:00.5Z", "2026-06-27 01:30:00", "hello", "2026"] {
        let once = converted(s, "America/New_York");
        assert_eq!(converted(&once, "America/New_York"), once);
    }
}

#[test]
fn offsets_are_rounded_to_minutes() {
    // The clocks of Shanghai were 8:05:43 ahead then: the text is 17 seconds off.
    assert_eq!(converted("1900-01-01T00:00:00Z", "Asia/Shanghai"), "1900-01-01T08:05:43+08:06");
}

#[test]
fn whole_minutes_since_1972() {
    let at = |secs: i64| can_tell(Timestamp { secs, nanos: 0 }, "Africa/Monrovia");
    assert!(!at(63_593_069));
    assert!(at(63_593_070));
    assert_eq!(converted("1972-01-07T00:44:29Z", "Africa/Monrovia"), "1972-01-06T23:59:59-00:45");
    assert_eq!(converted("1972-01-07T00:44:30Z", "Africa/Monrovia"), "1972-01-07T00:44:30+00:00");
}

#[test]
fn rfc_3339_tells_years_of_four_digits_and_whole_minutes() {
    let tell = |secs: i64, zone: &str| can_tell(Timestamp { secs, nanos: 0 }, zone);
    assert!(tell(0, "Asia/Shanghai"));
    assert!(tell(-1_000_000_000, "UTC"));
    // Shanghai in 1900, at 8:05:43.
    assert!(!tell(-2_208_988_800, "Asia/Shanghai"));
    // The end of the year 9999.
    assert!(tell(253_402_300_799, "UTC"));
    assert!(!tell(253_402_300_800, "UTC"));
    assert!(tell(253_402_300_800, "America/New_York"));
    assert!(!tell(253_402_271_999 + 1, "Asia/Shanghai"));
    assert!(!tell(0, "No/Where"));
}

#[test]
fn offset_follows_the_season() {
    assert_eq!(converted("2026-01-15T12:00:00Z", "Europe/Berlin"), "2026-01-15T13:00:00+01:00");
    assert_eq!(converted("2026-07-15T12:00:00Z", "Europe/Berlin"), "2026-07-15T14:00:00+02:00");
}

#[test]
fn leap_second_is_kept() {
    assert_eq!(
        converted("2016-12-31T23:59:60Z", "Asia/Shanghai"),
        "2017-01-01T07:59:60+08:00"
    );
}

#[test]
fn texts_that_only_look_like_timestamps_stay() {
    for s in [
        "2026-13-27T01:30:00",
        "2026-13-27 01:30:00",
        "2026-06-27_01:30:00",
        "2026-06-27_01:30:00 and so on",
        "1234567890123456789",
        "",
        "x026-06-27T01:30:00Z",
        "２026-06-27T01:30:00Z",
    ] {
        assert_eq!(converted(s, "Asia/Shanghai"), s);
    }
}

#[test]
fn first_look_goes_by_digit_and_length() {
    assert!(looks_like_timestamp("2026-06-27T01:30:00"));
    assert!(looks_like_timestamp("0éééééééééx"));
    assert!(!looks_like_timestamp("2026-06-27T01:30:0"));
    assert!(!looks_like_timestamp("T026-06-27T01:30:00"));
    assert!(!looks_like_timestamp(""));
}

#[test]
fn zoneless_times_get_the_form_of_rfc_3339() {
    assert_eq!(
        rfc3339_of_zoneless_time("2026-06-27 01:30:00").as_deref(),
        Some("2026-06-27T01:30:00+00:00")
    );
    assert_eq!(
        rfc3339_of_zoneless_time("2026-06-27 01 30 00").as_deref(),
        Some("2026-06-27T01T30T00+00:00")
    );
    assert_eq!(
        rfc3339_of_zoneless_time("2026-06-27T01:30:00").as_deref(),
        Some("2026-06-27T01:30:00+00:00")
    );
    assert!(rfc3339_of_zoneless_time("2026-06-27_01:30:00").is_none());
    assert!(rfc3339_of_zoneless_time("2026-06-27 01:30:00Z").is_none());
}

#[test]
fn values_that_are_no_texts_stay() {
    for mut v in [Json::Null, Json::Bool(true), number("20260627013000000000")] {
        let expected = match &v {
            Json::Null => Json::Null,
            Json::Bool(b) => Json::Bool(*b),
            Json::Number(n) => Json::Number(n.clone()),
            _ => unreachable!(),
        };
        convert_timestamps_to_local(&mut v, "Asia/Shanghai");
        assert_eq!(v, expected);
    }
}

#[test]
fn names_of_members_stay() {
    let name = "2026-06-27T01:30:00Z";
    let mut v = Json::Object(vec![(name.into(), Json::Array(vec![text(name), Json::Null]))]);
    convert_timestamps_to_local(&mut v, "Asia/Shanghai");
    let expected = Json::Object(vec![(
        name.into(),
        Json::Array(vec![text("2026-06-27T09:30:00+08:00"), Json::Null]),
    )]);
    assert_eq!(v, expected);
}

// ── Documents ────────────────────────────────────────────────────

#[test]
fn documents_are_read_whole() {
    let v = parse_json(r#" {"b": [null, true, -1.5, "x\u00e9"], "a": {}} "#).unwrap();
    assert_eq!(
        v.get("b").unwrap(),
        &Json::Array(vec![Json::Null, Json::Bool(true), number("-1.5"), text("xé")])
    );
    assert_eq!(v.get("a").unwrap(), &Json::Object(Vec::new()));
    assert!(v.get("c").is_none());
    assert_eq!(parse_json("[]").unwrap(), Json::Array(Vec::new()));
    assert!(parse_json("[1,]").is_none());
    assert!(parse_json("").is_none());
}

#[test]
fn last_of_two_members_with_a_name_counts() {
    let v = parse_json(r#"{"a": 1, "a": 2}"#).unwrap();
    assert_eq!(v, Json::Object(vec![("a".into(), number("2"))]));
}

#[test]
fn outside_values_are_taken_over() {
    let value = serde_json::Value::Array(vec![
        serde_json::Value::Null,
        serde_json::Value::Bool(false),
        serde_json::Value::from(7),
        serde_json::Value::from("seven"),
    ]);
    assert_eq!(
        json_from(value),
        Json::Array(vec![Json::Null, Json::Bool(false), number("7"), text("seven")])
    );
}

#[test]
fn texts_of_members_default_to_empty() {
    let v = parse_json(r#"{"a": "x", "b": 1}"#).unwrap();
    assert_eq!(v.get_text("a"), "x");
    assert_eq!(v.get_text("b"), "");
    assert_eq!(v.get_text("c"), "");
    assert_eq!(Json::Null.get_text("a"), "");
}
