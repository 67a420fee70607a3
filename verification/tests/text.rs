use sinan_store::columns::{
    parse_enum_column, validate_column, validate_hash, validate_i64_column,
    validate_optional_column, validate_optional_i64_column, EnumColumn,
};
use sinan_store::error::StoreError;
use sinan_store::numbers::{
    checked_increment, max_optional, non_negative_from_row, positive_from_row,
    positive_u64_to_i64, sequence_from_row, sequence_to_i64, u64_to_i64,
};
use sinan_store::text::{
    any_blank, count_distinct, decimal_text, is_blank, is_lower_hex_64, join5, list_within,
    same_text, signed_decimal_text, strictly_sorted_unique, text_begins_with, text_precedes,
};

fn texts(values: &[&str]) -> Vec<String> {
    values.iter().map(|value| value.to_string()).collect()
}

#[test]
fn blank_is_what_trimming_empties() {
    for code in 0..=0x10ffff_u32 {
        if let Some(character) = char::from_u32(code) {
            let text = character.to_string();
            assert_eq!(is_blank(&text), text.trim().is_empty(), "{code:x}");
        }
    }
    assert!(is_blank(""));
    assert!(is_blank(" \t\n\u{3000}"));
    assert!(!is_blank(" a "));
}

#[test]
fn texts_compare_like_strings() {
    let words = ["", "a", "aa", "ab", "b", "é", "z", "\u{ffff}", "\u{10000}"];
    for a in words {
        for b in words {
            assert_eq!(same_text(a, b), a == b);
            assert_eq!(text_precedes(a, b), a < b, "{a} {b}");
            assert_eq!(text_begins_with(a, b), a.starts_with(b));
        }
    }
}

#[test]
fn numbers_are_written_in_decimal() {
    for n in [0u64, 1, 9, 10, 99, 100, 12345, u64::MAX] {
        assert_eq!(decimal_text(n), n.to_string());
    }
    for n in [0i64, -1, 7, -10, i64::MAX, i64::MIN] {
        assert_eq!(signed_decimal_text(n), n.to_string());
    }
}

#[test]
fn digests_have_sixty_four_lower_case_digits() {
    assert!(is_lower_hex_64(&"0123456789abcdef".repeat(4)));
    assert!(!is_lower_hex_64(&"0123456789ABCDEF".repeat(4)));
    assert!(!is_lower_hex_64(&"0".repeat(63)));
    assert!(!is_lower_hex_64(&"0".repeat(65)));
    assert!(!is_lower_hex_64(&"g".repeat(64)));
}

#[test]
fn lists_are_judged() {
    assert!(strictly_sorted_unique(&texts(&["a", "b", "c"])));
    assert!(strictly_sorted_unique(&texts(&[])));
    assert!(!strictly_sorted_unique(&texts(&["a", "a"])));
    assert!(!strictly_sorted_unique(&texts(&["b", "a"])));
    assert!(any_blank(&texts(&["a", " "])));
    assert!(!any_blank(&texts(&["a"])));
    assert!(list_within(&texts(&["a", "b"]), &texts(&["c", "b", "a"])));
    assert!(!list_within(&texts(&["a", "d"]), &texts(&["c", "b", "a"])));
    assert_eq!(count_distinct(&vec!["a", "b", "a", "c", "b"]), 3);
    assert_eq!(join5("a", "b", "", "c", "d"), "abcd");
}

#[test]
fn errors_are_told_in_a_sentence() {
    let told = |error: StoreError| error.message();
    assert_eq!(
        told(StoreError::conflict("core_event", "e1")),
        "core_event identity conflict for e1"
    );
    assert_eq!(
        told(StoreError::ObservationConflict {
            entity: "latest_position",
            key: "a/p".to_string(),
            observed_at: -5,
        }),
        "latest_position observation conflict for a/p at -5"
    );
    assert_eq!(told(StoreError::missing("session", "s1")), "session not found for s1");
    assert_eq!(told(StoreError::stale("session", "s1")), "stale session write for s1");
    assert_eq!(
        told(StoreError::invalid("session", "s1", "too old")),
        "invalid session record s1: too old"
    );
    assert_eq!(
        told(StoreError::corrupt("session", "s1", "torn")),
        "session record s1 is corrupt: torn"
    );
    assert_eq!(
        told(StoreError::InvalidInteger { field: "revision", value: u64::MAX }),
        "revision value 18446744073709551615 does not fit in a SQLite INTEGER"
    );
    assert_eq!(
        told(StoreError::InvalidSequence { field: "sequence" }),
        "sequence must be greater than zero"
    );
    assert_eq!(told(StoreError::Serialization("bad".to_string())), "bad");
    assert_eq!(told(StoreError::Database("gone".to_string())), "gone");
}

#[test]
fn numbers_go_into_columns_and_back() {
    assert_eq!(u64_to_i64("n", i64::MAX as u64).unwrap(), i64::MAX);
    assert!(matches!(
        u64_to_i64("n", i64::MAX as u64 + 1),
        Err(StoreError::InvalidInteger { field: "n", value }) if value == i64::MAX as u64 + 1
    ));
    assert_eq!(checked_increment("n", 41).unwrap(), 42);
    assert!(checked_increment("n", u64::MAX).is_err());
    assert_eq!(positive_u64_to_i64("n", 1).unwrap(), 1);
    assert!(matches!(
        positive_u64_to_i64("n", 0),
        Err(StoreError::InvalidSequence { field: "n" })
    ));
    assert_eq!(sequence_to_i64("n", None).unwrap(), None);
    assert_eq!(sequence_to_i64("n", Some(3)).unwrap(), Some(3));
    assert!(sequence_to_i64("n", Some(0)).is_err());
    assert_eq!(non_negative_from_row("e", "k", "c", 0).unwrap(), 0);
    assert!(matches!(
        non_negative_from_row("e", "k", "c", -1),
        Err(StoreError::CorruptData { entity: "e", .. })
    ));
    assert_eq!(positive_from_row("e", "k", "c", 1).unwrap(), 1);
    assert!(positive_from_row("e", "k", "c", 0).is_err());
    assert_eq!(sequence_from_row("e", "k", None).unwrap(), None);
    assert_eq!(sequence_from_row("e", "k", Some(9)).unwrap(), Some(9));
    assert!(sequence_from_row("e", "k", Some(0)).is_err());
    assert_eq!(max_optional(None, Some(3)), Some(3));
    assert_eq!(max_optional(Some(4), Some(3)), Some(4));
    assert_eq!(max_optional(None, None), None);
}

#[test]
fn columns_must_repeat_the_payload() {
    assert!(validate_column("e", "k", "c", "a", "a").is_ok());
    assert!(matches!(
        validate_column("e", "k", "c", "a", "b"),
        Err(StoreError::CorruptData { entity: "e", key, .. }) if key == "k"
    ));
    assert!(validate_optional_column("e", "k", "c", &None, &None).is_ok());
    assert!(validate_optional_column("e", "k", "c", &Some("a".to_string()), &None).is_err());
    assert!(validate_i64_column("e", "k", "c", 1, 1).is_ok());
    assert!(validate_i64_column("e", "k", "c", 1, 2).is_err());
    assert!(validate_optional_i64_column("e", "k", "c", Some(1), Some(1)).is_ok());
    assert!(validate_optional_i64_column("e", "k", "c", Some(1), None).is_err());
    assert!(validate_hash("e", "k", &"a".repeat(64)).is_ok());
    assert!(validate_hash("e", "k", "a").is_err());
}

#[test]
fn unknown_names_are_corrupt() {
    let known: EnumColumn<u8> = EnumColumn { text: "A".to_string(), parsed: Ok(3) };
    assert_eq!(parse_enum_column("e", "k", "status", known).unwrap(), 3);
    let unknown: EnumColumn<u8> =
        EnumColumn { text: "a\"\n".to_string(), parsed: Err("no such status".to_string()) };
    match parse_enum_column("e", "k", "status", unknown) {
        Err(StoreError::CorruptData { entity, key, reason }) => {
            assert_eq!(entity, "e");
            assert_eq!(key, "k");
            assert_eq!(reason, "invalid status value \"a\\\"\\n\": no such status");
        }
        other => panic!("{other:?}"),
    }
}
