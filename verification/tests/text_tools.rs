use workshop_walker::distance::{osa_distance, similar_values};
use workshop_walker::extraction::{
    classification_pairs, extraction_request, merge_properties, populate_prompt, sanitise_output,
    InferenceGate, MLProperties,
};
use workshop_walker::model::{Class, DetectedLanguage, OrderBy, Status};
use workshop_walker::size_hint::helper;

#[test]
fn sanitise_output_strips_backend_chatter() {
    let raw = "Sure! Here you go: ```json{\"genres\": [\"horror\"]}```<br>Output:".to_string();
    assert_eq!(sanitise_output(raw), "{\"genres\": [\"horror\"]}");
    // with no opening brace everything is kept, minus the stripped fragments
    assert_eq!(sanitise_output("a>b###c".to_string()), "abc");
    // text before the first brace goes, even the advertised markers
    assert_eq!(sanitise_output("Output: {\"a\": 1}".to_string()), "{\"a\": 1}");
}

#[test]
fn populate_prompt_fills_and_strips_tabs() {
    let p = "Title: [TITLE]\tDescription: [DESCRIPTION]\t";
    assert_eq!(populate_prompt(p, "A", "B"), "Title: ADescription: B");
    // placeholders may repeat
    assert_eq!(populate_prompt("[TITLE]/[TITLE]", "x", "-"), "x/x");
}

#[test]
fn edit_distance_exact_values() {
    let chars = |s: &str| s.chars().collect::<Vec<char>>();
    assert_eq!(osa_distance(&chars("kitten"), &chars("sitting")), 3);
    assert_eq!(osa_distance(&chars("ab"), &chars("ba")), 1);
    assert_eq!(osa_distance(&chars(""), &chars("abc")), 3);
    assert_eq!(osa_distance(&chars("same"), &chars("same")), 0);
}

#[test]
fn edit_distance_threshold() {
    // one edit over six characters: well under the 0.8 threshold
    assert!(similar_values("scifi", "sci-fi"));
    // identical values are trivially similar
    assert!(similar_values("fantasy", "fantasy"));
    // a transposition is a single edit
    assert!(similar_values("ab", "ba"));
    // four edits over four characters: not similar
    assert!(!similar_values("abcd", "zxqw"));
}

#[test]
fn classification_record_flattens_in_order() {
    let props = MLProperties {
        genres: vec!["horror".to_string()],
        themes: vec!["mecha".to_string()],
        types: vec!["overhaul".to_string()],
        features: vec!["new scenario".to_string()],
    };
    let pairs = classification_pairs(&props);
    assert_eq!(
        pairs,
        vec![
            (Class::Genre, "horror".to_string()),
            (Class::Theme, "mecha".to_string()),
            (Class::Type, "overhaul".to_string()),
            (Class::Feature, "new scenario".to_string()),
        ]
    );
}

#[test]
fn merge_keeps_both_runs() {
    let a = MLProperties {
        genres: vec!["g1".to_string()],
        themes: vec![],
        types: vec![],
        features: vec!["f1".to_string()],
    };
    let b = MLProperties {
        genres: vec!["g2".to_string()],
        themes: vec!["t1".to_string()],
        types: vec![],
        features: vec![],
    };
    let m = merge_properties(a, b);
    assert_eq!(m.genres, vec!["g1".to_string(), "g2".to_string()]);
    assert_eq!(m.themes, vec!["t1".to_string()]);
    assert_eq!(m.features, vec!["f1".to_string()]);
}

#[test]
fn gate_admits_one_request_at_a_time() {
    let mut gate = InferenceGate::new();
    assert!(gate.try_acquire());
    assert!(!gate.try_acquire());
    gate.release();
    assert!(gate.try_acquire());
}

#[test]
fn gate_needs_title_and_description() {
    assert!(extraction_request(Some("t".to_string()), None).is_none());
    assert!(extraction_request(None, Some("d".to_string())).is_none());
    let r = extraction_request(Some("t".to_string()), Some("d".to_string())).unwrap();
    assert_eq!(r, ("t".to_string(), "d".to_string()));
}

#[test]
fn enum_codes_are_stable() {
    assert_eq!(Status::Rejected.code(), -1);
    assert_eq!(Status::Pending.code(), 0);
    assert_eq!(Status::Accepted.code(), 1);
    assert_eq!(DetectedLanguage::Unknown.code(), 0);
    assert_eq!(DetectedLanguage::Japanese.code(), 4);
    assert_eq!(DetectedLanguage::decode(4), DetectedLanguage::Japanese);
    assert_eq!(DetectedLanguage::decode(200), DetectedLanguage::Unknown);
}

#[test]
fn order_by_column_names() {
    assert_eq!(OrderBy::Alphabetical.column_name(), "title");
    assert_eq!(OrderBy::LastUpdated.column_name(), "last_updated");
    assert_eq!(OrderBy::Score.column_name(), "score");
    assert_eq!(OrderBy::Dependents.column_name(), "dependencies_length");
}

#[test]
fn size_hint_helper_requires_exact_bounds() {
    assert_eq!(helper((3, Some(3))), Some(3));
    assert_eq!(helper((0, Some(3))), None);
    assert_eq!(helper((3, None)), None);
}
