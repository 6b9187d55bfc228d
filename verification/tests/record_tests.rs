use deep_roles::errors::ClassifierError;
use deep_roles::records::{split_name, RawRecord};

fn record(fields: &[(&str, &str)]) -> RawRecord {
    RawRecord {
        fields: fields.iter().map(|(k, v)| (k.to_string(), v.to_string())).collect(),
    }
}

#[test]
fn splits_the_name_from_the_facets() {
    let rec = record(&[("grit", "3"), ("name", "Hero"), ("wit", "4")]);
    let (name, rest) = split_name(rec).unwrap();
    assert_eq!(name, "Hero");
    let fields: Vec<(String, String)> = rest.fields;
    assert_eq!(
        fields,
        vec![
            ("grit".to_string(), "3".to_string()),
            ("wit".to_string(), "4".to_string()),
        ]
    );
}

#[test]
fn record_without_name_is_malformed() {
    let rec = record(&[("grit", "3"), ("wit", "4")]);
    match split_name(rec) {
        Ok(_) => panic!("a record without a name field must not prime"),
        Err(e) => assert_eq!(e, ClassifierError::MalformedRecord),
    }
}

#[test]
fn name_lookup_takes_the_first_match() {
    let rec = record(&[("name", "First"), ("name", "Second")]);
    assert_eq!(rec.name_value(), "First");
}

#[test]
fn error_labels_are_distinct() {
    assert_eq!(ClassifierError::MalformedRecord.describe(), "malformed record");
    assert_eq!(ClassifierError::ZeroMagnitudeVector.describe(), "zero magnitude vector");
    assert_eq!(ClassifierError::FacetKeyMismatch.describe(), "facet key mismatch");
}
