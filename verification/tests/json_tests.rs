use deep_roles::json::{hashmap_to_json, join_strings};
use deep_roles::records::RawRecord;

fn record(fields: &[(&str, &str)]) -> RawRecord {
    RawRecord {
        fields: fields.iter().map(|(k, v)| (k.to_string(), v.to_string())).collect(),
    }
}

#[test]
fn renders_one_record() {
    let records = vec![record(&[("name", "Hero"), ("courage", "5"), ("wit", "-3")])];
    assert_eq!(
        hashmap_to_json(&records),
        "[{ \"name\": \"Hero\", \"facets\":{\"courage\":5,\"wit\":-3}}]"
    );
}

#[test]
fn renders_several_records() {
    let records = vec![
        record(&[("name", "A"), ("x", "1")]),
        record(&[("name", "B"), ("x", "2")]),
    ];
    assert_eq!(
        hashmap_to_json(&records),
        "[{ \"name\": \"A\", \"facets\":{\"x\":1}},{ \"name\": \"B\", \"facets\":{\"x\":2}}]"
    );
}

#[test]
fn skips_values_that_are_no_numerals() {
    let records = vec![record(&[("name", "A"), ("x", "abc"), ("y", "40000"), ("z", "12")])];
    assert_eq!(hashmap_to_json(&records), "[{ \"name\": \"A\", \"facets\":{\"z\":12}}]");
}

#[test]
fn canonicalizes_padded_numerals() {
    let records = vec![record(&[("name", "A"), ("x", "+007"), ("y", "-0")])];
    assert_eq!(hashmap_to_json(&records), "[{ \"name\": \"A\", \"facets\":{\"x\":7,\"y\":0}}]");
}

#[test]
fn keeps_range_edges() {
    let records = vec![record(&[("name", "A"), ("lo", "-32768"), ("hi", "32767")])];
    assert_eq!(
        hashmap_to_json(&records),
        "[{ \"name\": \"A\", \"facets\":{\"lo\":-32768,\"hi\":32767}}]"
    );
}

#[test]
fn empty_input_renders_empty_array() {
    let records: Vec<RawRecord> = vec![];
    assert_eq!(hashmap_to_json(&records), "[]");
}

#[test]
fn record_without_facets_renders_empty_object() {
    let records = vec![record(&[("name", "A")])];
    assert_eq!(hashmap_to_json(&records), "[{ \"name\": \"A\", \"facets\":{}}]");
}

#[test]
fn joins_with_separator() {
    let parts: Vec<String> = vec!["a".to_string(), "b".to_string(), "c".to_string()];
    assert_eq!(join_strings(&parts, ", "), "a, b, c");
    let empty: Vec<String> = vec![];
    assert_eq!(join_strings(&empty, ","), "");
    let one: Vec<String> = vec!["a".to_string()];
    assert_eq!(join_strings(&one, ","), "a");
}
