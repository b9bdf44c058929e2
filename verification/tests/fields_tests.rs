use journald_broker::fields::{json_round_trip, StrMap};

#[test]
fn insert_replaces_equal_keys() {
    let mut m = StrMap::new();
    assert_eq!(m.len(), 0);
    m.insert("MESSAGE".to_string(), "first".to_string());
    m.insert("PRIORITY".to_string(), "3".to_string());
    m.insert("MESSAGE".to_string(), "second".to_string());
    assert_eq!(m.len(), 2);
    assert_eq!(m.get("MESSAGE").unwrap().as_str(), "second");
    assert_eq!(m.get("PRIORITY").unwrap().as_str(), "3");
    assert!(m.get("ABSENT").is_none());
}

#[test]
fn entries_can_be_walked() {
    let mut m = StrMap::new();
    m.insert("A".to_string(), "1".to_string());
    m.insert("B".to_string(), "2".to_string());
    let mut seen: Vec<(String, String)> = Vec::new();
    for i in 0..m.len() {
        seen.push(m.entry_at(i).clone());
    }
    assert_eq!(
        seen,
        vec![
            ("A".to_string(), "1".to_string()),
            ("B".to_string(), "2".to_string()),
        ]
    );
}

#[test]
fn round_trip_preserves_every_field() {
    let mut m = StrMap::new();
    m.insert("MESSAGE".to_string(), "disk failure".to_string());
    m.insert("QUOTES".to_string(), "say \"hi\"\nand newline".to_string());
    m.insert("UNICODE".to_string(), "snowman ☃ here".to_string());
    let back = json_round_trip(&m);
    assert_eq!(back.len(), 3);
    assert_eq!(back.get("MESSAGE").unwrap().as_str(), "disk failure");
    assert_eq!(
        back.get("QUOTES").unwrap().as_str(),
        "say \"hi\"\nand newline"
    );
    assert_eq!(back.get("UNICODE").unwrap().as_str(), "snowman ☃ here");
}

#[test]
fn empty_record_round_trips() {
    let empty = StrMap::new();
    let back = json_round_trip(&empty);
    assert_eq!(back.len(), 0);
}
