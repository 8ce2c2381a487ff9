use reflect::entry::DayEntry;

#[test]
fn new_entry_is_empty() {
    let e = DayEntry::new();
    assert_eq!(e.note, "");
    assert!(e.actions.is_empty());
    assert_eq!(DayEntry::default(), e);
}

#[test]
fn add_action_trims_and_skips_blank_text() {
    let mut e = DayEntry::new();
    assert!(e.add_action("  Went for a run \n"));
    assert_eq!(e.actions, vec!["Went for a run".to_string()]);
    assert!(!e.add_action("   "));
    assert!(!e.add_action(""));
    assert_eq!(e.actions.len(), 1);
}

#[test]
fn add_then_remove_leaves_no_actions() {
    let mut e = DayEntry::new();
    assert!(e.add_action("Went for a run"));
    let removed = e.remove_action(0);
    assert_eq!(removed, "Went for a run");
    assert!(e.actions.is_empty());
}

#[test]
fn removing_the_middle_action_keeps_order() {
    let mut e = DayEntry::new();
    e.add_action("first");
    e.add_action("second");
    e.add_action("third");
    e.remove_action(1);
    assert_eq!(e.actions, vec!["first".to_string(), "third".to_string()]);
}

#[test]
fn equality_is_structural() {
    let mut a = DayEntry::with_note("day".to_string());
    let mut b = a.copy();
    assert!(a.same_as(&b));
    assert_eq!(a, b);
    b.add_action("x");
    assert!(!a.same_as(&b));
    a.add_action("y");
    assert!(!a.same_as(&b));
    b.set_note("other".to_string());
    assert_ne!(a, b);
}
