use franzplot::file_io::{load_part_list, parts_list_of, read_part_list, JsonValue, PartEntry, PartsList};

fn object(fields: &[(&str, Option<&str>)]) -> PartEntry {
    PartEntry::Object(fields.iter().map(|(k, v)| (k.to_string(), v.map(|s| s.to_string()))).collect())
}

#[test]
fn parts_are_read_in_order() {
    let list = PartsList::Array(vec![object(&[("base", Some("base.frzp"))]), object(&[("lid", Some("lid.frzp"))])]);
    assert_eq!(
        read_part_list(&list).unwrap(),
        vec![("base".to_string(), "base.frzp".to_string()), ("lid".to_string(), "lid.frzp".to_string())]
    );
    assert!(read_part_list(&PartsList::Array(vec![])).unwrap().is_empty());
}

#[test]
fn missing_or_malformed_lists_are_refused() {
    assert_eq!(read_part_list(&PartsList::Missing).unwrap_err(), "The JSON file does not contain the `parts_list` array");
    assert_eq!(read_part_list(&PartsList::NotArray).unwrap_err(), "The `parts_list` field in the JSON file is not an array");
}

#[test]
fn the_first_bad_entry_decides_the_error() {
    let list = PartsList::Array(vec![
        object(&[("a", Some("a.frzp"))]),
        object(&[("b", Some("b.frzp")), ("c", Some("c.frzp"))]),
        PartEntry::NotObject,
    ]);
    assert_eq!(read_part_list(&list).unwrap_err(), "Error in JSON array: each entry should only have 1 field");
    let list = PartsList::Array(vec![PartEntry::NotObject, object(&[("a", None)])]);
    assert_eq!(read_part_list(&list).unwrap_err(), "Error in JSON array: expected an object");
    let list = PartsList::Array(vec![object(&[("a", None)])]);
    assert_eq!(read_part_list(&list).unwrap_err(), "Error in JSON: all values should be strings");
}

#[test]
fn parts_files_are_read_from_json_bytes() {
    let text = br#"{ "name": "box", "parts_list": [ { "base": "base.frzp" }, { "lid": "lid.frzp" } ] }"#;
    assert_eq!(
        load_part_list(text).unwrap(),
        Some(vec![("base".to_string(), "base.frzp".to_string()), ("lid".to_string(), "lid.frzp".to_string())])
    );
    assert_eq!(load_part_list(b"(not json").unwrap(), None);
    assert_eq!(load_part_list(b"[1, 2]").unwrap_err(), "The JSON file does not contain the `parts_list` array");
    assert_eq!(
        load_part_list(br#"{"parts_list": 3}"#).unwrap_err(),
        "The `parts_list` field in the JSON file is not an array"
    );
    assert_eq!(
        load_part_list(br#"{"parts_list": [{"a": 1}]}"#).unwrap_err(),
        "Error in JSON: all values should be strings"
    );
    assert_eq!(
        load_part_list(br#"{"parts_list": [{"a": "x", "b": "y"}]}"#).unwrap_err(),
        "Error in JSON array: each entry should only have 1 field"
    );
}

#[test]
fn parts_list_field_of_a_document() {
    let doc = JsonValue::Object(vec![
        ("other".to_string(), JsonValue::Number),
        (
            "parts_list".to_string(),
            JsonValue::Array(vec![
                JsonValue::Object(vec![("a".to_string(), JsonValue::Str("a.frzp".to_string()))]),
                JsonValue::Null,
            ]),
        ),
    ]);
    match parts_list_of(&doc) {
        PartsList::Array(entries) => {
            assert_eq!(entries.len(), 2);
            assert!(matches!(&entries[1], PartEntry::NotObject));
            match &entries[0] {
                PartEntry::Object(fields) => assert_eq!(fields, &vec![("a".to_string(), Some("a.frzp".to_string()))]),
                _ => panic!("expected an object"),
            }
        },
        _ => panic!("expected an array"),
    }
    assert!(matches!(parts_list_of(&JsonValue::Bool(true)), PartsList::Missing));
    assert!(matches!(
        parts_list_of(&JsonValue::Object(vec![("parts_list".to_string(), JsonValue::Str("x".to_string()))])),
        PartsList::NotArray
    ));
}
