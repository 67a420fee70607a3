use serde_json::Value;
use sinan_store::error::StoreError;
use sinan_store::json::{sha256_hex, CanonicalJson, JsonDocument};

fn value(text: &str) -> Value {
    serde_json::from_str(text).unwrap()
}

#[test]
fn recursively_sorts_object_keys() {
    let first = CanonicalJson::from_value(value(
        r#"{"z": [{"b": 2, "a": 1}], "a": {"d": 4, "c": 3}}"#,
    ))
    .expect("JSON should canonicalize");
    let second = CanonicalJson::parse(r#"{"a":{"c":3,"d":4},"z":[{"a":1,"b":2}]}"#)
        .expect("JSON should canonicalize");

    assert_eq!(first, second);
    assert_eq!(first.as_str(), r#"{"a":{"c":3,"d":4},"z":[{"a":1,"b":2}]}"#);
}

#[test]
fn payload_change_changes_digest() {
    let first = CanonicalJson::from_value(value(r#"{"value": 1}"#)).unwrap();
    let second = CanonicalJson::from_value(value(r#"{"value": 2}"#)).unwrap();

    assert_ne!(first.sha256_hex(), second.sha256_hex());
}

#[test]
fn digest_is_that_of_the_text() {
    assert_eq!(
        sha256_hex(""),
        "e3b0c44298fc1c149afbf4c8996fb92427ae41e4649b934ca495991b7852b855"
    );
    assert_eq!(
        sha256_hex("abc"),
        "ba7816bf8f01cfea414140de5dae2223b00361a396177a9cb410ff61f20015ad"
    );
    let json = CanonicalJson::parse("{ }").unwrap();
    assert_eq!(json.as_str(), "{}");
    assert_eq!(
        json.sha256_hex(),
        "44136fa355b3678a1146ad16f7e8649e94fb4fc21fe77e8310c060f61caaff8a"
    );
}

#[test]
fn every_kind_of_value_is_kept() {
    let text = r#"[null,true,false,0,-1,18446744073709551615,-9223372036854775808,1.5,"a\"\nb",[],{}]"#;
    let json = CanonicalJson::parse(text).unwrap();
    assert_eq!(json.as_str(), text);
    let again = CanonicalJson::from_value(value(text)).unwrap();
    assert!(json.same(&again));
}

#[test]
fn members_are_ordered_by_their_characters() {
    let json = CanonicalJson::parse(r#"{"b":1,"B":2,"é":3,"a":4,"aa":5,"":6}"#).unwrap();
    assert_eq!(json.as_str(), r#"{"":6,"B":2,"a":4,"aa":5,"b":1,"é":3}"#);
}

#[test]
fn last_of_two_members_with_one_key_stays() {
    let json = CanonicalJson::parse(r#"{"a":1,"b":2,"a":3}"#).unwrap();
    assert_eq!(json.as_str(), r#"{"a":3,"b":2}"#);
}

#[test]
fn canonical_text_is_its_own_canonical_form() {
    let json = CanonicalJson::parse(r#" { "b" : [ 1 , 2 ] , "a" : { "y" : null , "x" : 1e3 } } "#)
        .unwrap();
    let again = CanonicalJson::parse(json.as_str()).unwrap();
    assert_eq!(again, json);
    assert_eq!(json.as_str(), r#"{"a":{"x":1000.0,"y":null},"b":[1,2]}"#);
}

#[test]
fn broken_text_is_refused() {
    assert!(matches!(CanonicalJson::parse("{"), Err(StoreError::Serialization(_))));
    assert!(matches!(CanonicalJson::parse(""), Err(StoreError::Serialization(_))));
    assert!(matches!(CanonicalJson::parse("{} {}"), Err(StoreError::Serialization(_))));
}

#[test]
fn stored_text_is_taken_back_only_as_it_was_written() {
    let (text, digest) = CanonicalJson::parse(r#"{"b":1,"a":2}"#).unwrap().into_parts();
    let back = CanonicalJson::from_stored("core_event", "e1", text.clone(), digest.clone()).unwrap();
    assert_eq!(back.as_str(), r#"{"a":2,"b":1}"#);
    assert_eq!(back.sha256_hex(), digest);

    let other = CanonicalJson::from_stored("core_event", "e1", text, sha256_hex("x"));
    assert!(matches!(
        other,
        Err(StoreError::CorruptData { entity: "core_event", key, .. }) if key == "e1"
    ));
    let loose = r#"{"b":1,"a":2}"#.to_string();
    let loose_digest = sha256_hex(&loose);
    assert!(matches!(
        CanonicalJson::from_stored("core_event", "e1", loose, loose_digest),
        Err(StoreError::CorruptData { .. })
    ));
    let broken = "{".to_string();
    let broken_digest = sha256_hex(&broken);
    assert!(matches!(
        CanonicalJson::from_stored("core_event", "e1", broken, broken_digest),
        Err(StoreError::CorruptData { .. })
    ));
}

#[test]
fn documents_can_be_looked_into() {
    let document = JsonDocument::read(r#"{"status":"OPEN","epoch":7,"less":-1}"#).unwrap();
    assert!(document.is_object());
    assert!(document.member_is_text("status", "OPEN"));
    assert!(!document.member_is_text("status", "CLOSED"));
    assert!(!document.member_is_text("epoch", "7"));
    assert!(document.member_is_natural("epoch", 7));
    assert!(!document.member_is_natural("epoch", 8));
    assert!(!document.member_is_natural("less", 1));
    assert_eq!(document.text_member("status"), Some("OPEN".to_string()));
    assert_eq!(document.text_member("epoch"), None);
    assert_eq!(document.text_member("none"), None);
    assert!(!JsonDocument::read("[]").unwrap().is_object());
    assert!(JsonDocument::read("nope").is_err());
}

#[test]
fn every_value_is_written() {
    let mut deep = value("1.5");
    for _ in 0..200 {
        deep = Value::Array(vec![deep]);
    }
    let json = CanonicalJson::from_value(deep).unwrap();
    assert_eq!(json.as_str(), format!("{}1.5{}", "[".repeat(200), "]".repeat(200)));
    assert!(CanonicalJson::parse(json.as_str()).is_err());
    let deepest = format!("{}{}", "[".repeat(127), "]".repeat(127));
    assert_eq!(CanonicalJson::parse(&deepest).unwrap().as_str(), deepest);
    let deeper = format!("[{deepest}]");
    assert!(CanonicalJson::parse(&deeper).is_err());
}

#[test]
fn order_and_white_space_are_immaterial() {
    let a = CanonicalJson::parse("{ \"b\" : 1.25, \"a\" : \" x \" }").unwrap();
    let b = CanonicalJson::parse(r#"{"a":" x ","b":1.25}"#).unwrap();
    assert_eq!(a, b);
    assert_eq!(a.as_str(), r#"{"a":" x ","b":1.25}"#);
    let plain = CanonicalJson::parse(r#"{"b":[2,1],"a":-7}"#).unwrap();
    assert_eq!(value(plain.as_str()), value(r#"{"b":[2,1],"a":-7}"#));
}

#[test]
fn lists_are_put_together() {
    let members = vec![
        CanonicalJson::parse(r#"{"b":1,"a":2}"#).unwrap(),
        CanonicalJson::parse("null").unwrap(),
    ];
    let list = CanonicalJson::from_list(&members).unwrap();
    assert_eq!(list.as_str(), r#"[{"a":2,"b":1},null]"#);
    assert_eq!(list, CanonicalJson::parse(list.as_str()).unwrap());
    assert_eq!(CanonicalJson::from_list(&vec![]).unwrap().as_str(), "[]");
    let mut deep = value("0");
    for _ in 0..128 {
        deep = Value::Array(vec![deep]);
    }
    let unreadable = CanonicalJson::from_value(deep).unwrap();
    assert!(matches!(
        CanonicalJson::from_list(&vec![unreadable]),
        Err(StoreError::Serialization(_))
    ));
    let texts = vec!["b".to_string(), "a\"".to_string()];
    assert_eq!(CanonicalJson::from_texts(&texts).unwrap().as_str(), r#"["b","a\""]"#);
}

#[test]
fn the_sign_of_a_zero_does_not_count() {
    let same = |a: &str, b: &str| {
        CanonicalJson::parse(a).unwrap().same_value(&CanonicalJson::parse(b).unwrap())
    };
    assert!(same("-0.0", "0.0"));
    assert!(same(r#"{"b":[1,-0.0],"a":-0.0}"#, r#"{"a":0.0,"b":[1,0.0]}"#));
    assert!(same(r#"["\\",-0.0]"#, r#"["\\",0.0]"#));
    assert!(!same("-0.05", "0.05"));
    assert!(!same("0", "0.0"));
    assert!(!same(r#"["-0.0"]"#, r#"["0.0"]"#));
    assert!(!same(r#"["a\",-0.0,"]"#, r#"["a\",0.0,"]"#));
    assert!(!same("[1.5]", "[-1.5]"));
}
