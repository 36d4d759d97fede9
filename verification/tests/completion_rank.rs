use zcode_store::kernel::LanguageId;
use zcode_store::store::intel::completion_rank::{
    CompletionRanker, CompletionRankerData, FrequencyEntry, LanguageFrequency, LanguageRankerEntry,
    MAX_ENTRIES_PER_LANGUAGE,
};

fn language_name(language: LanguageId) -> &'static str {
    match language {
        LanguageId::Rust => "rust",
        LanguageId::C => "c",
        LanguageId::Cpp => "cpp",
        LanguageId::Python => "python",
        LanguageId::Java => "java",
    }
}

fn language_from_name(name: &str) -> LanguageId {
    match name {
        "rust" => LanguageId::Rust,
        "c" => LanguageId::C,
        "cpp" => LanguageId::Cpp,
        "python" => LanguageId::Python,
        _ => LanguageId::Java,
    }
}

fn data_to_json(data: &CompletionRankerData) -> String {
    let mut languages = Vec::new();
    for entry in &data.languages {
        let mut items = Vec::new();
        for item in &entry.frequency.items {
            let mut obj = serde_json::Map::new();
            obj.insert("label".to_string(), serde_json::Value::String(item.label.clone()));
            obj.insert(
                "kind".to_string(),
                match item.kind {
                    Some(k) => serde_json::Value::from(k),
                    None => serde_json::Value::Null,
                },
            );
            obj.insert("score".to_string(), serde_json::Value::from(item.score as f64));
            items.push(serde_json::Value::Object(obj));
        }
        let mut frequency = serde_json::Map::new();
        frequency.insert("items".to_string(), serde_json::Value::Array(items));
        let mut obj = serde_json::Map::new();
        obj.insert("language".to_string(), serde_json::Value::String(language_name(entry.language).to_string()));
        obj.insert("frequency".to_string(), serde_json::Value::Object(frequency));
        languages.push(serde_json::Value::Object(obj));
    }
    let mut root = serde_json::Map::new();
    root.insert("languages".to_string(), serde_json::Value::Array(languages));
    serde_json::to_string(&serde_json::Value::Object(root)).unwrap()
}

fn data_from_json(json: &str) -> CompletionRankerData {
    let value: serde_json::Value = serde_json::from_str(json).unwrap();
    let mut languages = Vec::new();
    for entry in value["languages"].as_array().unwrap() {
        let mut items = Vec::new();
        for item in entry["frequency"]["items"].as_array().unwrap() {
            let score = item["score"].as_f64().unwrap();
            items.push(FrequencyEntry {
                label: item["label"].as_str().unwrap().to_string(),
                kind: item["kind"].as_u64().map(|k| k as u32),
                score: if score > 0.0 { score.ceil() as u64 } else { 0 },
            });
        }
        languages.push(LanguageRankerEntry {
            language: language_from_name(entry["language"].as_str().unwrap()),
            frequency: LanguageFrequency { items },
        });
    }
    CompletionRankerData { languages }
}

#[test]
fn record_and_score() {
    let mut ranker = CompletionRanker::default();
    ranker.record(Some(LanguageId::C), "printf", Some(3));
    assert!(ranker.score(Some(LanguageId::C), "printf", Some(3)) > 0);
    assert_eq!(ranker.score(Some(LanguageId::C), "puts", Some(3)), 0);
}

#[test]
fn record_sets_item_as_most_recent() {
    let mut ranker = CompletionRanker::default();
    ranker.record(Some(LanguageId::C), "printf", Some(3));
    ranker.record(Some(LanguageId::C), "puts", Some(3));
    assert!(ranker.score(Some(LanguageId::C), "puts", Some(3)) > ranker.score(Some(LanguageId::C), "printf", Some(3)));
}

#[test]
fn record_again_moves_item_to_front() {
    let mut ranker = CompletionRanker::default();
    ranker.record(Some(LanguageId::C), "printf", Some(3));
    ranker.record(Some(LanguageId::C), "puts", Some(3));
    ranker.record(Some(LanguageId::C), "printf", Some(3));

    assert!(ranker.score(Some(LanguageId::C), "printf", Some(3)) > ranker.score(Some(LanguageId::C), "puts", Some(3)));
}

#[test]
fn languages_are_independent() {
    let mut ranker = CompletionRanker::default();
    ranker.record(Some(LanguageId::Rust), "unwrap", Some(2));
    assert!(ranker.score(Some(LanguageId::Rust), "unwrap", Some(2)) > 0);
    assert_eq!(ranker.score(Some(LanguageId::Python), "unwrap", Some(2)), 0);
}

#[test]
fn kind_distinguishes_items() {
    let mut ranker = CompletionRanker::default();
    ranker.record(Some(LanguageId::Python), "print", Some(3));
    assert!(ranker.score(Some(LanguageId::Python), "print", Some(3)) > 0);
    assert_eq!(ranker.score(Some(LanguageId::Python), "print", Some(6)), 0);
}

#[test]
fn no_language_is_noop() {
    let mut ranker = CompletionRanker::default();
    ranker.record(None, "foo", Some(1));
    assert_eq!(ranker.score(None, "foo", Some(1)), 0);
}

#[test]
fn capacity_limit_enforced() {
    let mut ranker = CompletionRanker::default();
    for i in 0..600 {
        ranker.record(Some(LanguageId::C), &format!("item_{i}"), Some(1));
    }
    assert!(ranker.language_entry_count(LanguageId::C) <= MAX_ENTRIES_PER_LANGUAGE);
    assert_eq!(ranker.score(Some(LanguageId::C), "item_0", Some(1)), 0);
    assert!(ranker.score(Some(LanguageId::C), "item_599", Some(1)) > 0);
}

#[test]
fn serde_roundtrip() {
    let mut ranker = CompletionRanker::default();
    ranker.record(Some(LanguageId::C), "printf", Some(3));
    ranker.record(Some(LanguageId::Rust), "unwrap", Some(2));

    let json = data_to_json(&ranker.snapshot_data());
    let loaded = CompletionRanker::from_data(data_from_json(&json)).from_deserialized();

    assert!(
        ((loaded.score(Some(LanguageId::C), "printf", Some(3)) as f64)
            - (ranker.score(Some(LanguageId::C), "printf", Some(3)) as f64))
            .abs()
            < f64::EPSILON
    );
    assert!(
        ((loaded.score(Some(LanguageId::Rust), "unwrap", Some(2)) as f64)
            - (ranker.score(Some(LanguageId::Rust), "unwrap", Some(2)) as f64))
            .abs()
            < f64::EPSILON
    );
}

#[test]
fn dirty_flag_can_be_cleared_after_save() {
    let mut ranker = CompletionRanker::default();
    assert!(!ranker.is_dirty());

    ranker.record(Some(LanguageId::Rust), "println", Some(3));
    assert!(ranker.is_dirty());

    let _json = data_to_json(&ranker.snapshot_data());
    assert!(ranker.is_dirty());

    ranker.clear_dirty();
    assert!(!ranker.is_dirty());
}

#[test]
fn recorded_stamps_count_up_from_one() {
    let mut ranker = CompletionRanker::default();
    ranker.record(Some(LanguageId::C), "a", None);
    ranker.record(Some(LanguageId::C), "b", None);
    ranker.record(Some(LanguageId::Rust), "c", Some(1));
    assert_eq!(ranker.score(Some(LanguageId::C), "a", None), 1);
    assert_eq!(ranker.score(Some(LanguageId::C), "b", None), 2);
    assert_eq!(ranker.score(Some(LanguageId::Rust), "c", Some(1)), 3);
}

#[test]
fn full_language_drops_exactly_the_oldest() {
    let mut ranker = CompletionRanker::default();
    for i in 0..MAX_ENTRIES_PER_LANGUAGE {
        ranker.record(Some(LanguageId::Java), &format!("m{i}"), Some(2));
    }
    assert_eq!(ranker.language_entry_count(LanguageId::Java), MAX_ENTRIES_PER_LANGUAGE);
    ranker.record(Some(LanguageId::Java), "m0", Some(2));
    ranker.record(Some(LanguageId::Java), "fresh", Some(2));
    assert_eq!(ranker.language_entry_count(LanguageId::Java), MAX_ENTRIES_PER_LANGUAGE);
    assert!(ranker.score(Some(LanguageId::Java), "m0", Some(2)) > 0);
    assert_eq!(ranker.score(Some(LanguageId::Java), "m1", Some(2)), 0);
    assert!(ranker.score(Some(LanguageId::Java), "m2", Some(2)) > 0);
    assert!(ranker.score(Some(LanguageId::Java), "fresh", Some(2)) > 0);
}

#[test]
fn snapshot_lists_languages_in_identifier_order_with_sorted_items() {
    let mut ranker = CompletionRanker::default();
    ranker.record(Some(LanguageId::Rust), "zeta", Some(2));
    ranker.record(Some(LanguageId::Rust), "alpha", Some(2));
    ranker.record(Some(LanguageId::Rust), "beta", None);
    ranker.record(Some(LanguageId::C), "printf", Some(3));
    let data = ranker.snapshot_data();
    let langs: Vec<LanguageId> = data.languages.iter().map(|e| e.language).collect();
    assert_eq!(langs, vec![LanguageId::C, LanguageId::Rust]);
    let rust_items: Vec<(Option<u32>, String, u64)> = data.languages[1]
        .frequency
        .items
        .iter()
        .map(|it| (it.kind, it.label.clone(), it.score))
        .collect();
    assert_eq!(
        rust_items,
        vec![(None, "beta".to_string(), 3), (Some(2), "alpha".to_string(), 2), (Some(2), "zeta".to_string(), 1)]
    );
}

#[test]
fn loading_skips_zero_scores_and_resumes_the_clock() {
    let data = CompletionRankerData {
        languages: vec![LanguageRankerEntry {
            language: LanguageId::Python,
            frequency: LanguageFrequency {
                items: vec![
                    FrequencyEntry { label: "print".to_string(), kind: Some(3), score: 7 },
                    FrequencyEntry { label: "len".to_string(), kind: Some(3), score: 0 },
                    FrequencyEntry { label: "print".to_string(), kind: Some(3), score: 4 },
                ],
            },
        }],
    };
    let mut ranker = CompletionRanker::from_data(data);
    assert!(!ranker.is_dirty());
    assert_eq!(ranker.score(Some(LanguageId::Python), "print", Some(3)), 4);
    assert_eq!(ranker.score(Some(LanguageId::Python), "len", Some(3)), 0);
    assert_eq!(ranker.language_entry_count(LanguageId::Python), 1);
    ranker.record(Some(LanguageId::Python), "len", Some(3));
    assert_eq!(ranker.score(Some(LanguageId::Python), "len", Some(3)), 5);
}
