use reflect::date::Date;
use reflect::entry::DayEntry;
use reflect::session::Session;
use reflect::store::{decode_entry, encode_entry};
use std::collections::HashMap;

/// Saves the day being edited into `disk` as the application does, and
/// returns whether a file was written.
fn save(session: &mut Session, disk: &mut HashMap<String, String>) -> bool {
    match session.pending_save() {
        Some(request) => {
            disk.insert(request.file_name.clone(), request.content.clone());
            session.confirm_save(request);
            true
        }
        None => false,
    }
}

fn read(disk: &HashMap<String, String>, date: &Date) -> String {
    disk.get(&reflect::store::entry_file_name(date)).cloned().unwrap_or_default()
}

fn today() -> Date {
    Date::new(2024, 3, 15).unwrap()
}

#[test]
fn fresh_day_opens_empty_and_needs_no_write() {
    let mut disk = HashMap::new();
    let mut s = Session::open(today(), "");
    assert_eq!(s.current_entry(), &DayEntry::new());
    assert!(!save(&mut s, &mut disk));
    assert!(disk.is_empty());
}

#[test]
fn saving_twice_writes_once() {
    let mut disk = HashMap::new();
    let mut s = Session::open(today(), "");
    s.set_note("Had a good day".to_string());
    let mut writes = 0;
    if save(&mut s, &mut disk) {
        writes += 1;
    }
    if save(&mut s, &mut disk) {
        writes += 1;
    }
    assert_eq!(writes, 1);
    assert_eq!(decode_entry(&disk["2024-03-15.json"]).note, "Had a good day");
}

#[test]
fn opened_day_matches_its_file() {
    let mut stored = DayEntry::with_note("kept".to_string());
    stored.add_action("walk");
    let text = encode_entry(&stored);
    let mut disk = HashMap::new();
    let mut s = Session::open(today(), &text);
    assert_eq!(s.current_entry(), &stored);
    assert!(!save(&mut s, &mut disk));
}

#[test]
fn failed_write_is_retried() {
    let mut s = Session::open(today(), "");
    s.add_action("Went for a run");
    // The write fails: the request is dropped without being confirmed.
    assert!(s.pending_save().is_some());
    let mut disk = HashMap::new();
    assert!(save(&mut s, &mut disk));
    assert!(!save(&mut s, &mut disk));
}

#[test]
fn forward_then_back_keeps_the_day() {
    let mut disk = HashMap::new();
    let mut s = Session::open(today(), "");
    s.set_note("today".to_string());
    s.add_action("one");
    let before = s.current_entry().copy();
    save(&mut s, &mut disk);
    let ahead = s.current_date().next().unwrap();
    assert!(s.needs_load(&ahead));
    let text = read(&disk, &ahead);
    s.go_to(ahead, &text);
    assert_eq!(s.current_date(), ahead);
    assert_eq!(s.current_entry(), &DayEntry::new());
    save(&mut s, &mut disk);
    let back = s.current_date().prev().unwrap();
    assert!(!s.needs_load(&back));
    let text = read(&disk, &back);
    s.go_to(back, &text);
    assert_eq!(s.current_date(), today());
    assert_eq!(s.current_entry(), &before);
}

#[test]
fn unsaved_edits_survive_navigation() {
    let mut s = Session::open(today(), "");
    s.set_note("not written".to_string());
    let ahead = today().next().unwrap();
    s.go_to(ahead, "");
    s.go_to(today(), "");
    assert_eq!(s.current_entry().note, "not written");
    assert!(s.pending_save().is_some());
}

#[test]
fn new_day_loads_from_its_file() {
    let mut stored = DayEntry::with_note("yesterday".to_string());
    stored.add_action("call mum");
    let text = encode_entry(&stored);
    let mut s = Session::open(today(), "");
    let back = today().prev().unwrap();
    s.go_to(back, &text);
    assert_eq!(s.current_entry(), &stored);
    let mut disk = HashMap::new();
    assert!(!save(&mut s, &mut disk));
    s.remove_action(0);
    assert!(save(&mut s, &mut disk));
    assert!(decode_entry(&disk["2024-03-14.json"]).actions.is_empty());
}

#[test]
fn moving_to_the_current_day_changes_nothing() {
    let mut disk = HashMap::new();
    let mut s = Session::open(today(), "");
    s.set_note("saved".to_string());
    assert!(save(&mut s, &mut disk));
    let text = read(&disk, &today());
    s.go_to(today(), &text);
    assert_eq!(s.current_entry().note, "saved");
    assert!(!save(&mut s, &mut disk));
}

#[test]
fn save_request_holds_the_structured_text() {
    let mut s = Session::open(today(), "");
    s.add_action("Went for a run");
    let request = s.pending_save().unwrap();
    assert_eq!(request.file_name, "2024-03-15.json");
    assert_eq!(request.content, encode_entry(s.current_entry()));
    assert_eq!(decode_entry(&request.content), *s.current_entry());
    assert_eq!(request.entry, *s.current_entry());
}
