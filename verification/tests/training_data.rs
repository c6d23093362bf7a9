use icarus::training_data::{lookup, normalize, TrainingData, TrainingEntry};

fn entry(prompt: &str, answer: &str, keywords: &[&str]) -> TrainingEntry {
    TrainingEntry {
        prompt: prompt.to_string(),
        answer: answer.to_string(),
        keywords: keywords.iter().map(|k| k.to_string()).collect(),
    }
}

#[test]
fn normalization_trims_lowercases_and_collapses_spaces() {
    assert_eq!(normalize("  Hello   WORLD\t "), "hello world");
    assert_eq!(normalize("ÀB\u{00A0}C"), "àb c");
    assert_eq!(normalize("   "), "");
}

#[test]
fn exact_answers_come_before_keywords() {
    let mut data = TrainingData::new();
    data.ingest_entries(&[
        entry("What is Forge?", "A language.", &[]),
        entry("anything", "Keyword answer", &["forge", "what"]),
        entry("   ", "never stored", &[]),
        entry("Only Blank Keywords", "exact instead", &["  ", ""]),
    ]);
    assert_eq!(lookup(&data, "what   is FORGE?"), Some("A language.".to_string()));
    assert_eq!(lookup(&data, "so what about forge"), Some("Keyword answer".to_string()));
    assert_eq!(lookup(&data, "only blank keywords"), Some("exact instead".to_string()));
    assert_eq!(lookup(&data, "forge"), None);
    assert_eq!(lookup(&data, ""), None);
}

#[test]
fn keyword_rules_are_tried_in_order() {
    let mut data = TrainingData::new();
    data.ingest_entries(&[
        entry("a", "first", &["alpha"]),
        entry("b", "second", &["alpha", "beta"]),
    ]);
    assert_eq!(lookup(&data, "alpha beta"), Some("first".to_string()));
    assert_eq!(lookup(&data, "beta"), None);
}

#[test]
fn plain_pairs_are_exact_answers_and_later_ones_win() {
    let mut data = TrainingData::new();
    data.ingest_pairs(&[
        ("Hi".to_string(), "hello".to_string()),
        ("  HI ".to_string(), "hello again".to_string()),
    ]);
    assert_eq!(lookup(&data, "hi"), Some("hello again".to_string()));
}
