use deep_roles::classifier::{ClassificationMethod, Classifier, ModelFormat};
use deep_roles::errors::ClassifierError;
use deep_roles::models::{DeepRole, Facet};
use deep_roles::ranking::rank_key_of_bits;

fn role(name: &str, facets: &[(&str, f32)]) -> DeepRole {
    DeepRole {
        name: name.to_string(),
        facets: facets
            .iter()
            .map(|(k, w)| Facet { key: k.to_string(), weight_bits: w.to_bits() })
            .collect(),
    }
}

fn key_of(score: f32) -> u32 {
    rank_key_of_bits(score.to_bits())
}

#[test]
fn schema_check_accepts_matching_key_sets() {
    let a = role("A", &[("x", 1.0), ("y", 0.0)]);
    let b = role("B", &[("y", 1.0), ("x", 0.0)]);
    assert_eq!(a.ensure_comparable(&b), Ok(()));
    assert!(a.same_facet_schema(&b));
}

#[test]
fn schema_mismatch_is_an_error_not_a_value() {
    let a = role("A", &[("x", 1.0)]);
    let b = role("B", &[("x", 1.0), ("y", 1.0)]);
    assert_eq!(a.ensure_comparable(&b), Err(ClassifierError::FacetKeyMismatch));
    assert_eq!(b.ensure_comparable(&a), Err(ClassifierError::FacetKeyMismatch));
    assert!(!a.same_facet_schema(&b));
}

#[test]
fn profile_schema_is_checked_against_every_archetype() {
    let classifier = Classifier::new(vec![
        role("A", &[("x", 1.0), ("y", 0.0)]),
        role("B", &[("x", 0.0), ("y", 1.0)]),
    ]);
    let good = role("P", &[("x", 0.7), ("y", 0.7)]);
    assert_eq!(classifier.check_profile_schema(&good), Ok(()));
    let bad = role("Q", &[("x", 0.7), ("z", 0.7)]);
    assert_eq!(classifier.check_profile_schema(&bad), Err(ClassifierError::FacetKeyMismatch));
}

#[test]
fn identical_archetype_outranks_orthogonal_one() {
    // With the vector-projection method a normalized profile scores 1.0
    // against an identical archetype and 0.0 against an orthogonal one; the
    // ranking must yield the identical archetype first.
    let classifier = Classifier::new(vec![
        role("same", &[("x", 1.0), ("y", 0.0)]),
        role("orthogonal", &[("x", 0.0), ("y", 1.0)]),
    ]);
    let keys = vec![key_of(1.0), key_of(0.0)];
    let mut ranking = classifier.ranking_from_scores(&keys);
    let first = ranking.pop().unwrap();
    assert_eq!(first.name, "same");
    assert_eq!(first.rank_key, key_of(1.0));
    let second = ranking.pop().unwrap();
    assert_eq!(second.name, "orthogonal");
    assert_eq!(second.rank_key, key_of(0.0));
    assert!(ranking.pop().is_none());
}

#[test]
fn equally_similar_archetypes_tie_with_equal_rank_values() {
    // A profile halfway between two unit archetypes scores the same against
    // both; the ranking holds both entries at that value and promises no
    // order between them.
    let classifier = Classifier::new(vec![
        role("A", &[("x", 1.0), ("y", 0.0)]),
        role("B", &[("x", 0.0), ("y", 1.0)]),
    ]);
    let tied = 0.707f32;
    let keys = vec![key_of(tied), key_of(tied)];
    let mut ranking = classifier.ranking_from_scores(&keys);
    let mut names: Vec<String> = Vec::new();
    while let Some(entry) = ranking.pop() {
        assert_eq!(entry.rank_key, key_of(tied));
        names.push(entry.name);
    }
    names.sort();
    assert_eq!(names, vec!["A".to_string(), "B".to_string()]);
}

#[test]
fn method_and_format_tags_are_plain_values() {
    assert_eq!(ClassificationMethod::VectorProjection, ClassificationMethod::VectorProjection);
    assert!(ClassificationMethod::VectorProjection != ClassificationMethod::AngularDistance);
    let fmt = ModelFormat::Csv("assets/archetypes.csv");
    match fmt {
        ModelFormat::Csv(path) => assert_eq!(path, "assets/archetypes.csv"),
        ModelFormat::Json(_) => panic!("wrong format tag"),
    }
}
