use erosion::calendar::{date_text, instant_text, rfc3339_text, FIRST_INSTANT, LAST_INSTANT};
use erosion::digest::{fingerprint_of, text_fingerprint_of};
use erosion::format::{count_text, decimal_text, join, parse_signed, parse_unsigned, signed_text};
use erosion::json::json_list_text;
use erosion::languages::policy::{language_policy, TestExclusionPolicy};
use erosion::languages::{Language, LanguageAdapter};
use erosion::ordered::OrderedMap;
use erosion::text::{decode, ends_with, less, split_text, starts_with};

#[test]
fn digests_are_written_in_hexadecimal() {
    assert_eq!(
        fingerprint_of(b""),
        "e3b0c44298fc1c149afbf4c8996fb92427ae41e4649b934ca495991b7852b855"
    );
    assert_eq!(
        text_fingerprint_of("abc"),
        "ba7816bf8f01cfea414140de5dae2223b00361a396177a9cb410ff61f20015ad"
    );
}

#[test]
fn instants_are_shown_in_utc() {
    let seconds = 1_735_732_800;
    assert_eq!(instant_text(seconds), "2025-01-01 12:00:00 UTC");
    assert_eq!(rfc3339_text(seconds), "2025-01-01T12:00:00+00:00");
    assert_eq!(date_text(seconds), "2025-01-01");
    for text in [instant_text, rfc3339_text, date_text] {
        assert_eq!(text(i64::MAX), "9223372036854775807");
    }
}

#[test]
fn instants_reach_from_the_first_date_to_the_last() {
    assert_eq!(
        FIRST_INSTANT,
        chrono::DateTime::<chrono::Utc>::MIN_UTC.timestamp()
    );
    assert_eq!(
        LAST_INSTANT,
        chrono::DateTime::<chrono::Utc>::MAX_UTC.timestamp()
    );
    assert_eq!(date_text(FIRST_INSTANT), "-262143-01-01");
    assert_eq!(date_text(LAST_INSTANT), "+262142-12-31");
    assert_eq!(date_text(FIRST_INSTANT - 1), "-8334601228801");
    assert_eq!(date_text(LAST_INSTANT + 1), "8210266876800");
}

#[test]
fn instants_are_written_digit_by_digit() {
    for seconds in [
        0,
        -1,
        59,
        86_399,
        951_782_400,
        -62_135_596_800,
        -62_167_219_200,
        -62_167_219_201,
        253_402_300_799,
        253_402_300_800,
        FIRST_INSTANT,
        LAST_INSTANT,
    ] {
        let instant = chrono::DateTime::<chrono::Utc>::from_timestamp(seconds, 0).unwrap();
        assert_eq!(instant_text(seconds), instant.to_string());
        assert_eq!(rfc3339_text(seconds), instant.to_rfc3339());
    }
    assert_eq!(instant_text(-1), "1969-12-31 23:59:59 UTC");
    assert_eq!(rfc3339_text(-62_167_219_200), "0000-01-01T00:00:00+00:00");
    assert_eq!(date_text(-62_167_219_201), "-0001-12-31");
    assert_eq!(instant_text(253_402_300_799), "9999-12-31 23:59:59 UTC");
    assert_eq!(date_text(253_402_300_800), "+10000-01-01");
}

#[test]
fn every_character_is_escaped_as_json_has_it() {
    for code in (0..0x100).chain([0x2028, 0xd7ff, 0xe000, 0xffff, 0x1f600, 0x10ffff]) {
        let text = vec![char::from_u32(code).unwrap().to_string()];
        assert_eq!(json_list_text(&text), serde_json::to_string(&text).unwrap());
    }
    let controls = vec!["\u{8}\t\n\u{b}\u{c}\r\u{1f}\"\\/\u{7f}".to_owned()];
    assert_eq!(
        json_list_text(&controls),
        "[\"\\b\\t\\n\\u000b\\f\\r\\u001f\\\"\\\\/\u{7f}\"]"
    );
}

#[test]
fn numbers_are_written_and_read() {
    for n in [0, 9, 10, 12345, u64::MAX] {
        assert_eq!(decimal_text(n), n.to_string());
        assert_eq!(parse_unsigned(&n.to_string(), u64::MAX), Some(n));
    }
    assert_eq!(count_text(42), "42");
    for n in [0, -1, i64::MAX, i64::MIN] {
        assert_eq!(signed_text(n), n.to_string());
        assert_eq!(parse_signed(&n.to_string()), Some(n));
    }
    assert_eq!(parse_unsigned("256", 255), None);
    assert_eq!(parse_unsigned("18446744073709551616", u64::MAX), None);
    assert_eq!(parse_unsigned("+7", 255), Some(7));
    for text in ["", "+", "-1", " 1", "1_0"] {
        assert_eq!(parse_unsigned(text, 255), None, "{text:?}");
    }
    for text in ["", "-", "+-1", "9223372036854775808"] {
        assert_eq!(parse_signed(text), None, "{text:?}");
    }
}

#[test]
fn lists_are_json_arrays_of_escaped_strings() {
    let list = vec!["a\"b".to_owned(), "line\n".to_owned(), "\u{e9}\u{1}".to_owned()];
    assert_eq!(json_list_text(&list), serde_json::to_string(&list).unwrap());
    assert_eq!(
        json_list_text(&list),
        "[\"a\\\"b\",\"line\\n\",\"\u{e9}\\u0001\"]"
    );
    assert_eq!(json_list_text(&vec![]), "[]");
    assert_eq!(join(&vec!["a".to_owned(), "b".to_owned()], ", "), "a, b");
}

#[test]
fn policies_are_json_objects_by_language() {
    let policy = TestExclusionPolicy::current();
    let json: serde_json::Value = serde_json::from_str(&policy.json()).unwrap();
    assert_eq!(json["version"], "language-tests-v1");
    let languages = json["languages"].as_object().unwrap();
    assert_eq!(languages.len(), 6);
    for language in Language::ALL {
        let policy = language_policy(language);
        assert_eq!(
            languages[language.id()],
            serde_json::from_str::<serde_json::Value>(&policy.json()).unwrap()
        );
        assert_eq!(
            languages[language.id()]["path_patterns"],
            serde_json::Value::from(policy.path_patterns.clone())
        );
        assert_eq!(policy.fingerprint(), text_fingerprint_of(&policy.json()));
    }
    assert_ne!(
        language_policy(Language::Rust).fingerprint(),
        language_policy(Language::Gleam).fingerprint()
    );
}

#[test]
fn extensions_decide_the_language_whatever_their_case() {
    for (path, language) in [
        ("a.JS", Some(Language::JavaScript)),
        ("src/b.mTs", Some(Language::TypeScript)),
        ("c.tsx", Some(Language::Tsx)),
        ("d.pyi", Some(Language::Python)),
        ("x.y/e.rs", Some(Language::Rust)),
        ("f.gleam", Some(Language::Gleam)),
        ("g.rs/", Some(Language::Rust)),
        (".rs", None),
        ("dir.rs/h", None),
        ("rs", None),
        ("a.txt", None),
    ] {
        assert_eq!(Language::for_path(path), language, "{path}");
    }
}

#[test]
fn invalid_bytes_are_named_with_their_place() {
    let adapter = erosion::languages::adapter(Language::Rust).unwrap();
    let analysis = adapter.analyze(b"fn a() {}\nfn \xff() {}\n").unwrap();
    assert!(!analysis.parsed());
    assert_eq!(analysis.physical_lines, 2);
    let diagnostic = &analysis.diagnostics[0];
    assert_eq!((diagnostic.line, diagnostic.column), (2, 4));
    assert!(diagnostic
        .message
        .contains("invalid utf-8 sequence of 1 bytes from index 13"));
}

#[test]
fn maps_keep_their_keys_in_order() {
    let mut map = OrderedMap::new();
    for (key, value) in [("b", 1), ("a", 2), ("c", 3), ("a", 4), ("", 5)] {
        map.set(key, value);
    }
    assert_eq!(map.len(), 4);
    let all: Vec<_> = (0..map.len())
        .map(|at| (map.key(at), *map.value(at)))
        .collect();
    assert_eq!(all, [("", 5), ("a", 4), ("b", 1), ("c", 3)]);
    assert_eq!(map.get("a"), Some(&4));
    assert_eq!(map.get("d"), None);
    assert_eq!(map.position("c"), Some(3));
}

#[test]
fn texts_are_split_and_compared() {
    assert_eq!(split_text("a  b", ' '), ["a", "", "b"]);
    assert_eq!(split_text("", ' '), [""]);
    assert!(less("a", "ab") && less("Z", "a") && !less("a", "a"));
    assert!(less("\u{e9}", "\u{20ac}"));
    assert!(starts_with("remote.x", "remote.") && !starts_with("re", "remote."));
    assert!(ends_with("a.promisor", ".promisor") && !ends_with("r", ".promisor"));
    assert_eq!(decode("\u{e9}".as_bytes()), "\u{e9}");
    assert_eq!(decode(b"\xff"), "");
}
