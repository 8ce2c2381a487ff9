use reflect::date::Date;
use reflect::entry::DayEntry;
use reflect::store::{decode_entry, encode_entry, entry_from_fields, legacy_date, plan_migration};
use std::collections::HashMap;

fn sample() -> DayEntry {
    let mut e = DayEntry::with_note("Line one\nwith \"quotes\" and \\ and é".to_string());
    e.add_action("Went for a run");
    e.add_action("Read a book");
    e
}

#[test]
fn empty_text_loads_as_empty_entry() {
    assert_eq!(decode_entry(""), DayEntry::new());
}

#[test]
fn round_trip_keeps_the_entry() {
    let e = sample();
    let text = encode_entry(&e);
    assert_eq!(decode_entry(&text), e);
    let empty = DayEntry::new();
    assert_eq!(decode_entry(&encode_entry(&empty)), empty);
}

#[test]
fn encoded_text_is_pretty_json_note_first() {
    let text = encode_entry(&sample());
    assert!(text.starts_with('{'));
    assert!(text.contains('\n'));
    assert!(text.find("\"note\"").unwrap() < text.find("\"actions\"").unwrap());
    let empty = encode_entry(&DayEntry::new());
    assert!(empty.contains("\"actions\": []"));
}

#[test]
fn malformed_or_truncated_text_loads_as_empty_entry() {
    let text = encode_entry(&sample());
    let truncated = &text[..text.len() / 2];
    assert_eq!(decode_entry(truncated), DayEntry::new());
    assert_eq!(decode_entry("not json"), DayEntry::new());
    assert_eq!(decode_entry("{\"note\": 3, \"actions\": []}"), DayEntry::new());
    assert_eq!(decode_entry("{\"note\": \"x\"}"), DayEntry::new());
    assert_eq!(decode_entry("{\"note\": \"x\", \"actions\": [1]}"), DayEntry::new());
}

#[test]
fn reads_files_written_elsewhere() {
    let e = decode_entry("{\"actions\":[\"a\",\"b\"],\"note\":\"hi\",\"mood\":5}");
    assert_eq!(e.note, "hi");
    assert_eq!(e.actions, vec!["a".to_string(), "b".to_string()]);
}

#[test]
fn entry_from_fields_checks_every_field() {
    assert_eq!(entry_from_fields(None, Some(vec![])), DayEntry::new());
    assert_eq!(entry_from_fields(Some("n".to_string()), None), DayEntry::new());
    let mixed = vec![Some("a".to_string()), None, Some("c".to_string())];
    assert_eq!(entry_from_fields(Some("n".to_string()), Some(mixed)), DayEntry::new());
    let good = vec![Some("a".to_string()), Some("b".to_string())];
    let e = entry_from_fields(Some("n".to_string()), Some(good));
    assert_eq!(e.note, "n");
    assert_eq!(e.actions, vec!["a".to_string(), "b".to_string()]);
}

#[test]
fn migration_of_a_plain_text_day() {
    let mut dir: HashMap<String, String> = HashMap::new();
    dir.insert("2024-03-15.txt".to_string(), "Had a good day".to_string());
    dir.insert("notes.md".to_string(), "other".to_string());
    let names: Vec<String> = dir.keys().cloned().collect();
    for name in names {
        if let Some(date) = legacy_date(&name) {
            let note = dir[&name].clone();
            let m = plan_migration(&date, note);
            assert_eq!(m.legacy_name, name);
            dir.insert(m.target_name.clone(), m.content.clone());
            dir.remove(&m.legacy_name);
        }
    }
    assert!(!dir.contains_key("2024-03-15.txt"));
    assert!(dir.contains_key("notes.md"));
    let loaded = decode_entry(&dir["2024-03-15.json"]);
    assert_eq!(loaded.note, "Had a good day");
    assert!(loaded.actions.is_empty());
    assert_eq!(legacy_date("2024-03-15.txt"), Date::new(2024, 3, 15));
}

#[test]
fn migration_keeps_the_note_verbatim_and_replaces_a_structured_file() {
    let mut dir: HashMap<String, String> = HashMap::new();
    let text = "Had a good day\n  second line\n".to_string();
    dir.insert("2024-03-15.txt".to_string(), text.clone());
    dir.insert("2024-03-15.json".to_string(), "{\"note\":\"old\",\"actions\":[\"a\"]}".to_string());
    let date = legacy_date("2024-03-15.txt").unwrap();
    let m = plan_migration(&date, dir["2024-03-15.txt"].clone());
    assert_eq!(m.target_name, "2024-03-15.json");
    dir.insert(m.target_name.clone(), m.content.clone());
    dir.remove(&m.legacy_name);
    assert_eq!(dir.len(), 1);
    let loaded = decode_entry(&dir["2024-03-15.json"]);
    assert_eq!(loaded.note, text);
    assert!(loaded.actions.is_empty());
}
