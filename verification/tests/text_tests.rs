use license::encoding::{write_decimal, write_escaped_char, write_fixed, write_quoted};
use license::features::{key_order, Features, KeyOrder};
use license::instant::{date_is_valid, leap_year, Timestamp};

fn quoted(s: &str) -> String {
    let mut out = String::new();
    write_quoted(&mut out, s);
    out
}

#[test]
fn quoting_matches_serde_json() {
    let samples = [
        "",
        "plain",
        "with \"quotes\"",
        "back\\slash",
        "\u{0}\u{1}\u{7}\u{8}\u{9}\u{a}\u{b}\u{c}\u{d}\u{e}\u{1f} \u{7f}",
        "/ é ü 漢字 😀 \u{2028}",
    ];
    for s in samples.iter() {
        assert_eq!(quoted(s), serde_json::to_string(s).unwrap());
    }
}

#[test]
fn quoting_is_exact() {
    assert_eq!(quoted("a\"b"), "\"a\\\"b\"");
    assert_eq!(quoted("a\\b"), "\"a\\\\b\"");
    assert_eq!(quoted("\n\r\t"), "\"\\n\\r\\t\"");
    assert_eq!(quoted("\u{8}\u{c}"), "\"\\b\\f\"");
    assert_eq!(quoted("\u{0}\u{1b}\u{1f}"), "\"\\u0000\\u001b\\u001f\"");
    let mut out = "x".to_string();
    write_escaped_char(&mut out, 'y');
    write_escaped_char(&mut out, '"');
    assert_eq!(out, "xy\\\"");
}

#[test]
fn numbers_are_written_in_decimal() {
    let mut out = String::new();
    write_decimal(&mut out, 0);
    out.push(' ');
    write_decimal(&mut out, 7);
    out.push(' ');
    write_decimal(&mut out, 10);
    out.push(' ');
    write_decimal(&mut out, u64::MAX);
    assert_eq!(out, "0 7 10 18446744073709551615");
    let mut fixed = String::new();
    write_fixed(&mut fixed, 7, 2);
    fixed.push(' ');
    write_fixed(&mut fixed, 2024, 4);
    fixed.push(' ');
    write_fixed(&mut fixed, 12345, 3);
    fixed.push(' ');
    write_fixed(&mut fixed, 5, 0);
    assert_eq!(fixed, "07 2024 345 ");
}

#[test]
fn instants_are_written_as_chrono_writes_them() {
    let samples: [(i32, u32, u32, u32, u32, u32, u32); 10] = [
        (2024, 2, 28, 0, 0, 0, 0),
        (2024, 2, 29, 23, 59, 59, 999_999_999),
        (1, 1, 1, 1, 2, 3, 120_000_000),
        (0, 12, 31, 12, 0, 0, 123_456_000),
        (9999, 12, 31, 23, 59, 59, 1),
        (10000, 1, 1, 0, 0, 0, 0),
        (-1, 6, 15, 6, 7, 8, 0),
        (-262143, 1, 1, 0, 0, 0, 0),
        (262142, 12, 31, 23, 59, 59, 1_999_999_999),
        (1970, 1, 1, 0, 0, 59, 1_500_000_000),
    ];
    for (y, mo, d, h, mi, s, n) in samples.iter().copied() {
        let mine = Timestamp::new(y, mo, d, h, mi, s, n).unwrap().to_text();
        let theirs = chrono::NaiveDate::from_ymd_opt(y, mo, d)
            .unwrap()
            .and_hms_nano_opt(h, mi, s, n)
            .unwrap()
            .and_utc()
            .to_rfc3339_opts(chrono::SecondsFormat::AutoSi, true);
        assert_eq!(mine, theirs);
    }
    assert_eq!(Timestamp::new(2024, 2, 28, 1, 2, 3, 0).unwrap().to_text(), "2024-02-28T01:02:03Z");
    assert_eq!(
        Timestamp::new(2024, 2, 28, 1, 2, 3, 40_000_000).unwrap().to_text(),
        "2024-02-28T01:02:03.040Z"
    );
    assert_eq!(Timestamp::earliest().to_text(), "-262143-01-01T00:00:00Z");
}

#[test]
fn instants_must_be_on_the_calendar() {
    assert!(Timestamp::new(2024, 2, 29, 0, 0, 0, 0).is_some());
    assert!(Timestamp::new(2023, 2, 29, 0, 0, 0, 0).is_none());
    assert!(Timestamp::new(1900, 2, 29, 0, 0, 0, 0).is_none());
    assert!(Timestamp::new(2000, 2, 29, 0, 0, 0, 0).is_some());
    assert!(Timestamp::new(2024, 4, 31, 0, 0, 0, 0).is_none());
    assert!(Timestamp::new(2024, 0, 1, 0, 0, 0, 0).is_none());
    assert!(Timestamp::new(2024, 13, 1, 0, 0, 0, 0).is_none());
    assert!(Timestamp::new(2024, 1, 0, 0, 0, 0, 0).is_none());
    assert!(Timestamp::new(2024, 1, 1, 24, 0, 0, 0).is_none());
    assert!(Timestamp::new(2024, 1, 1, 0, 60, 0, 0).is_none());
    assert!(Timestamp::new(2024, 1, 1, 0, 0, 60, 0).is_none());
    assert!(Timestamp::new(2024, 1, 1, 0, 0, 58, 1_000_000_000).is_none());
    assert!(Timestamp::new(2024, 1, 1, 0, 0, 59, 1_000_000_000).is_some());
    assert!(Timestamp::new(2024, 1, 1, 0, 0, 59, 2_000_000_000).is_none());
    assert!(Timestamp::new(262143, 1, 1, 0, 0, 0, 0).is_none());
    assert!(Timestamp::new(-262144, 1, 1, 0, 0, 0, 0).is_none());
    assert!(Timestamp::at_midnight(2024, 2, 30).is_none());
    assert!(date_is_valid(-4, 2, 29));
    assert!(!date_is_valid(-1, 2, 29));
    assert!(leap_year(-400));
    assert!(!leap_year(-100));
    let t = Timestamp::new(2024, 2, 29, 1, 2, 3, 4).unwrap();
    assert_eq!(
        (t.year(), t.month(), t.day(), t.hour(), t.minute(), t.second(), t.nanosecond()),
        (2024, 2, 29, 1, 2, 3, 4)
    );
}

#[test]
fn instants_are_ordered_field_by_field() {
    let base = Timestamp::new(2024, 6, 15, 12, 30, 30, 500).unwrap();
    let later = [
        Timestamp::new(2025, 1, 1, 0, 0, 0, 0).unwrap(),
        Timestamp::new(2024, 7, 1, 0, 0, 0, 0).unwrap(),
        Timestamp::new(2024, 6, 16, 0, 0, 0, 0).unwrap(),
        Timestamp::new(2024, 6, 15, 13, 0, 0, 0).unwrap(),
        Timestamp::new(2024, 6, 15, 12, 31, 0, 0).unwrap(),
        Timestamp::new(2024, 6, 15, 12, 30, 31, 0).unwrap(),
        Timestamp::new(2024, 6, 15, 12, 30, 30, 501).unwrap(),
    ];
    for t in later.iter() {
        assert!(t.is_after(&base));
        assert!(!base.is_after(t));
    }
    assert!(!base.is_after(&base));
    assert!(base.is_after(&Timestamp::new(-5, 12, 31, 23, 59, 59, 0).unwrap()));
}

#[test]
fn names_are_ordered_by_their_bytes() {
    assert_eq!(key_order("a", "b"), KeyOrder::Before);
    assert_eq!(key_order("b", "a"), KeyOrder::After);
    assert_eq!(key_order("a", "a"), KeyOrder::Same);
    assert_eq!(key_order("", ""), KeyOrder::Same);
    assert_eq!(key_order("", "a"), KeyOrder::Before);
    assert_eq!(key_order("ab", "a"), KeyOrder::After);
    assert_eq!(key_order("Z", "a"), KeyOrder::Before);
    assert_eq!(key_order("z", "é"), KeyOrder::Before);
    let words = ["remote connect", "admin", "émile", "Zed", "debug", "", "emails", "漢", "😀"];
    for a in words.iter() {
        for b in words.iter() {
            let expected = if a < b {
                KeyOrder::Before
            } else if a == b {
                KeyOrder::Same
            } else {
                KeyOrder::After
            };
            assert_eq!(key_order(a, b), expected);
        }
    }
}

#[test]
fn feature_tables_stay_sorted() {
    let mut table = Features::new();
    for (k, v) in [("m", "1"), ("a", "2"), ("z", "3"), ("m", "4"), ("b", "5"), ("a", "6")].iter() {
        table = table.with_entry(k.to_string(), v.to_string());
    }
    assert_eq!(table.len(), 4);
    let names: Vec<&String> = (0..table.len()).map(|i| table.name_at(i)).collect();
    assert_eq!(names, vec!["a", "b", "m", "z"]);
    let values: Vec<&String> = (0..table.len()).map(|i| table.value_at(i)).collect();
    assert_eq!(values, vec!["6", "5", "4", "3"]);
    assert!(table.contains("m"));
    assert!(!table.contains("n"));
    assert_eq!(table.get("z"), Some(&"3".to_string()));
    assert_eq!(table.get(""), None);
}
