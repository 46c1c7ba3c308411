use simbank::bank::persistence::PersistenceError;
use simbank::bank::replay::{join_path, sort_texts, text_le_exec, EventReader};

#[test]
fn date_file_joins_the_directory_and_the_day() {
    assert_eq!(EventReader::new("data/events").date_file("2024-03-01"), "data/events/2024-03-01.jsonl");
    assert_eq!(EventReader::new("data/events/").date_file("2024-03-01"), "data/events/2024-03-01.jsonl");
    assert_eq!(EventReader::new("").date_file("2024-03-01"), "2024-03-01.jsonl");
}

#[test]
fn join_path_adds_one_separator() {
    assert_eq!(join_path("a", "b"), "a/b");
    assert_eq!(join_path("a/", "b"), "a/b");
    assert_eq!(join_path("", "b"), "b");
}

#[test]
fn range_files_walks_every_day_across_months() {
    let reader = EventReader::new("logs");
    let files = reader.range_files("2024-02-27", "2024-03-01").unwrap();
    assert_eq!(
        files,
        vec![
            "logs/2024-02-27.jsonl".to_string(),
            "logs/2024-02-28.jsonl".to_string(),
            "logs/2024-02-29.jsonl".to_string(),
            "logs/2024-03-01.jsonl".to_string(),
        ]
    );
}

#[test]
fn range_files_of_one_day_and_of_a_reversed_range() {
    let reader = EventReader::new("logs");
    assert_eq!(reader.range_files("2023-12-31", "2023-12-31").unwrap(), vec!["logs/2023-12-31.jsonl".to_string()]);
    assert!(reader.range_files("2024-01-02", "2024-01-01").unwrap().is_empty());
}

#[test]
fn range_files_reports_a_bad_date() {
    let reader = EventReader::new("logs");
    match reader.range_files("yesterday", "2024-01-01") {
        Err(PersistenceError::Other(m)) => assert!(m.starts_with("Invalid from date: ")),
        other => panic!("unexpected {:?}", other),
    }
    match reader.range_files("2024-01-01", "2024-13-01") {
        Err(PersistenceError::Other(m)) => assert!(m.starts_with("Invalid to date: ")),
        other => panic!("unexpected {:?}", other),
    }
}

#[test]
fn event_files_keeps_jsonl_files_sorted() {
    let reader = EventReader::new("ev");
    let names = vec![
        "2024-01-03.jsonl".to_string(),
        "notes.txt".to_string(),
        ".jsonl".to_string(),
        "2024-01-01.jsonl".to_string(),
        "2024-01-02.jsonl".to_string(),
    ];
    assert_eq!(
        reader.event_files(&names),
        vec![
            "ev/2024-01-01.jsonl".to_string(),
            "ev/2024-01-02.jsonl".to_string(),
            "ev/2024-01-03.jsonl".to_string(),
        ]
    );
}

#[test]
fn text_order_is_by_code_point_with_prefixes_first() {
    assert!(text_le_exec("abc", "abd"));
    assert!(!text_le_exec("abd", "abc"));
    assert!(text_le_exec("ab", "abc"));
    assert!(!text_le_exec("abc", "ab"));
    assert!(text_le_exec("Z", "a"));
    assert!(text_le_exec("", ""));
}

#[test]
fn sort_texts_orders_like_std_sort() {
    let v: Vec<String> = vec!["pear", "apple", "Pear", "apple", "äpfel", "fig"].into_iter().map(String::from).collect();
    let mut expected = v.clone();
    expected.sort();
    assert_eq!(sort_texts(v), expected);
}
