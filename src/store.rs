//! The on-disk form of day entries: one structured (JSON) file per day,
//! named after the day, and the plain-text files of the older format that
//! are converted to it.

use crate::date::{in_range, key_text, Date, Ymd};
use crate::entry::{DayEntry, EntryModel};
use vstd::prelude::*;

verus! {

/// The string that serde_json finds under `key` when it reads `text` as a
/// JSON object; `None` when `text` is not JSON, not an object, has no such
/// field, or the field is not a string.
pub uninterp spec fn json_string_field(text: Seq<char>, key: Seq<char>) -> Option<Seq<char>>;

/// The items of the array that serde_json finds under `key` when it reads
/// `text` as a JSON object, each the string it holds if it is a string;
/// `None` when there is no such array.
pub uninterp spec fn json_list_field(text: Seq<char>, key: Seq<char>) -> Option<
    Seq<Option<Seq<char>>>,
>;

/// The pretty-printed JSON text that serde_json writes for the object
/// `{text_key: text, list_key: [list...]}`, fields in that order.
pub uninterp spec fn json_pair_text(
    text_key: Seq<char>,
    text: Seq<char>,
    list_key: Seq<char>,
    list: Seq<Seq<char>>,
) -> Seq<char>;

pub open spec fn opt_view(o: Option<String>) -> Option<Seq<char>> {
    match o {
        Some(s) => Some(s@),
        None => None,
    }
}

pub open spec fn opt_views(v: Seq<Option<String>>) -> Seq<Option<Seq<char>>> {
    v.map_values(|o: Option<String>| opt_view(o))
}

/// Relies on `serde_json::from_str` into a `serde_json::Value`, then
/// `Value::get` and `Value::as_str`: the string field `key` of `text`.
#[verifier::external_body]
fn string_field(text: &str, key: &str) -> (r: Option<String>)
    ensures
        opt_view(r) == json_string_field(text@, key@),
{
    let value: serde_json::Value = serde_json::from_str(text).ok()?;
    Some(value.get(key)?.as_str()?.to_string())
}

/// Relies on `serde_json::from_str` into a `serde_json::Value`, then
/// `Value::get`, `Value::as_array` and `Value::as_str` on each item: the
/// array field `key` of `text`, each item as a string if it is one.
#[verifier::external_body]
fn list_field(text: &str, key: &str) -> (r: Option<Vec<Option<String>>>)
    ensures
        r is None <==> json_list_field(text@, key@) is None,
        r is Some ==> json_list_field(text@, key@) == Some(
            opt_views(r->Some_0@),
        ),
{
    let value: serde_json::Value = serde_json::from_str(text).ok()?;
    let mut items = Vec::new();
    for item in value.get(key)?.as_array()? {
        items.push(item.as_str().map(|s| s.to_string()));
    }
    Some(items)
}

/// Relies on `serde_json::to_string_pretty` of a `serde_json::Value`
/// object (ordered fields, as the `preserve_order` feature keeps them),
/// which fails only for a failing `Serialize` impl or a non-string map key,
/// neither of which a `Value` with string keys has. Its text is never empty
/// (it starts with `{`), and `serde_json::from_str` reads the two fields
/// back from it.
#[verifier::external_body]
fn pretty_pair(text_key: &str, text: &str, list_key: &str, list: &Vec<String>) -> (r: String)
    requires
        text_key@ != list_key@,
    ensures
        r@ == json_pair_text(text_key@, text@, list_key@, list.deep_view()),
        r@.len() > 0,
        json_string_field(r@, text_key@) == Some(text@),
        json_list_field(r@, list_key@) == Some(
            list.deep_view().map_values(|s: Seq<char>| Some(s)),
        ),
{
    let mut object = serde_json::Map::new();
    object.insert(text_key.to_string(), serde_json::Value::String(text.to_string()));
    let items = list.iter().map(|a| serde_json::Value::String(a.clone())).collect();
    object.insert(list_key.to_string(), serde_json::Value::Array(items));
    serde_json::to_string_pretty(&serde_json::Value::Object(object)).unwrap_or_default()
}

/// Name of the field that holds the note in an entry file.
pub open spec fn note_key() -> Seq<char> {
    seq!['n', 'o', 't', 'e']
}

/// Name of the field that holds the action list in an entry file.
pub open spec fn actions_key() -> Seq<char> {
    seq!['a', 'c', 't', 'i', 'o', 'n', 's']
}

/// The text of the structured file of an entry: a JSON object with the
/// note, then the actions (an empty list when there are none).
pub open spec fn entry_text(e: EntryModel) -> Seq<char> {
    json_pair_text(note_key(), e.note, actions_key(), e.actions)
}

pub open spec fn all_strings(items: Seq<Option<Seq<char>>>) -> bool {
    forall|i: int| 0 <= i < items.len() ==> (#[trigger] items[i]) is Some
}

pub open spec fn strings_of(items: Seq<Option<Seq<char>>>) -> Seq<Seq<char>> {
    items.map_values(|o: Option<Seq<char>>| o->Some_0)
}

/// The entry that the fields found in a structured file give: a string
/// note and a list of strings make an entry; anything else is the empty
/// entry.
pub open spec fn entry_of_fields(
    note: Option<Seq<char>>,
    items: Option<Seq<Option<Seq<char>>>>,
) -> EntryModel {
    match (note, items) {
        (Some(n), Some(l)) => if all_strings(l) {
            EntryModel { note: n, actions: strings_of(l) }
        } else {
            EntryModel::empty()
        },
        _ => EntryModel::empty(),
    }
}

pub open spec fn json_suffix() -> Seq<char> {
    seq!['.', 'j', 's', 'o', 'n']
}

pub open spec fn text_suffix() -> Seq<char> {
    seq!['.', 't', 'x', 't']
}

/// Name of the structured file of day `d`.
pub open spec fn entry_name(d: Ymd) -> Seq<char> {
    key_text(d) + json_suffix()
}

/// Name of the plain-text file of day `d` in the older format.
pub open spec fn legacy_name(d: Ymd) -> Seq<char> {
    key_text(d) + text_suffix()
}

/// The entry that the text of a structured file gives: an empty or
/// unreadable file gives the empty entry.
pub open spec fn loaded_entry(text: Seq<char>) -> EntryModel {
    if text.len() == 0 {
        EntryModel::empty()
    } else {
        entry_of_fields(json_string_field(text, note_key()), json_list_field(text, actions_key()))
    }
}

/// A store directory: file name to file text.
pub type Directory = Map<Seq<char>, Seq<char>>;

/// The entry that day `d` has in directory `dir`; a missing file reads as
/// empty text.
pub open spec fn stored_entry(dir: Directory, d: Ymd) -> EntryModel {
    loaded_entry(
        if dir.contains_key(entry_name(d)) {
            dir[entry_name(d)]
        } else {
            Seq::empty()
        },
    )
}

/// A day that has no file reads as the empty entry.
pub proof fn lemma_unsaved_day_is_empty(dir: Directory, d: Ymd)
    requires
        !dir.contains_key(entry_name(d)),
    ensures
        stored_entry(dir, d) == EntryModel::empty(),
{
}

/// Writing the text of an entry to its day's file and reading the day
/// back gives that entry; the text `encode_entry` returns is such a text.
pub proof fn lemma_save_then_load(dir: Directory, d: Ymd, entry: EntryModel, text: Seq<char>)
    requires
        loaded_entry(text) == entry,
    ensures
        stored_entry(dir.insert(entry_name(d), text), d) == entry,
{
}

/// A structured file whose text does not hold a string note and a list of
/// string actions (it is not JSON, is cut short, or has other fields)
/// reads as the empty entry.
pub proof fn lemma_malformed_file_is_empty(text: Seq<char>)
    requires
        json_string_field(text, note_key()) is None || json_list_field(text, actions_key()) is None
            || !all_strings(json_list_field(text, actions_key())->Some_0),
    ensures
        loaded_entry(text) == EntryModel::empty(),
{
}

/// After a migration of day `d` is carried out (its structured file
/// written, then its plain-text file deleted), the day reads as an entry
/// whose note is the old text and with no actions, and the plain-text file
/// is gone.
pub proof fn lemma_migration_result(dir: Directory, d: Ymd, note: Seq<char>, content: Seq<char>)
    requires
        loaded_entry(content) == (EntryModel { note, actions: Seq::empty() }),
    ensures
        ({
            let after = dir.insert(entry_name(d), content).remove(legacy_name(d));
            &&& stored_entry(after, d) == (EntryModel { note, actions: Seq::empty() })
            &&& !after.contains_key(legacy_name(d))
        }),
{
    let key = key_text(d);
    assert(entry_name(d)[key.len() as int + 1] == 'j');
    assert(legacy_name(d)[key.len() as int + 1] == 't');
    assert(entry_name(d) != legacy_name(d));
}

/// Name of the structured file of `date`: `YYYY-MM-DD.json`.
pub fn entry_file_name(date: &Date) -> (r: String)
    ensures
        r@ == entry_name(date@),
{
    let mut name = date.key();
    name.append(".json");
    proof {
        reveal_strlit(".json");
    }
    name
}

/// Name of the plain-text file of `date` in the older format: `YYYY-MM-DD.txt`.
pub fn legacy_file_name(date: &Date) -> (r: String)
    ensures
        r@ == legacy_name(date@),
{
    let mut name = date.key();
    name.append(".txt");
    proof {
        reveal_strlit(".txt");
    }
    name
}

/// The day whose plain-text file of the older format is named `file_name`,
/// if it is one.
pub fn legacy_date(file_name: &str) -> (r: Option<Date>)
    ensures
        r matches Some(d) ==> file_name@ == legacy_name(d@),
        r is None ==> forall|t: Ymd| in_range(t) ==> file_name@ != legacy_name(t),
{
    let n = file_name.unicode_len();
    proof {
        assert forall|t: Ymd| in_range(t) implies (#[trigger] legacy_name(t)).len() == 14 by {
            Date::lemma_key_length(t);
        }
    }
    if n != 14 {
        return None;
    }
    if file_name.get_char(10) != '.' || file_name.get_char(11) != 't' || file_name.get_char(12)
        != 'x' || file_name.get_char(13) != 't' {
        proof {
            assert forall|t: Ymd| in_range(t) implies file_name@ != legacy_name(t) by {
                Date::lemma_key_length(t);
                if file_name@ == legacy_name(t) {
                    assert(legacy_name(t)[10] == '.');
                    assert(legacy_name(t)[11] == 't');
                    assert(legacy_name(t)[12] == 'x');
                    assert(legacy_name(t)[13] == 't');
                }
            }
        }
        return None;
    }
    let stem = file_name.substring_char(0, 10);
    proof {
        assert(file_name@ =~= stem@ + text_suffix());
        assert forall|t: Ymd| in_range(t) && file_name@ == legacy_name(t) implies stem@ == key_text(
            t,
        ) by {
            Date::lemma_key_length(t);
            assert(stem@ =~= legacy_name(t).subrange(0, 10));
            assert(key_text(t) =~= legacy_name(t).subrange(0, 10));
        }
    }
    Date::parse_key(stem)
}

/// The entry that the fields read from a structured file give: the note
/// must be a string and every action a string, else the day is empty.
pub fn entry_from_fields(note: Option<String>, items: Option<Vec<Option<String>>>) -> (r: DayEntry)
    ensures
        r@ == entry_of_fields(
            opt_view(note),
            match items {
                Some(v) => Some(opt_views(v@)),
                None => None,
            },
        ),
{
    let note = match note {
        Some(n) => n,
        None => return DayEntry::new(),
    };
    let items = match items {
        Some(v) => v,
        None => return DayEntry::new(),
    };
    let ghost model = opt_views(items@);
    let mut actions: Vec<String> = Vec::new();
    let mut i: usize = 0;
    let mut all_text = true;
    while i < items.len()
        invariant
            i <= items.len(),
            model == opt_views(items@),
            actions@.len() == i,
            all_text ==> forall|k: int| 0 <= k < i ==> (#[trigger] model[k]) is Some,
            !all_text ==> !all_strings(model),
            forall|k: int| 0 <= k < i ==> (#[trigger] actions@[k])@ == model[k]->Some_0,
        ensures
            all_text ==> i == items.len(),
            actions@.len() == i,
            all_text ==> forall|k: int| 0 <= k < i ==> (#[trigger] model[k]) is Some,
            !all_text ==> !all_strings(model),
            forall|k: int| 0 <= k < i ==> (#[trigger] actions@[k])@ == model[k]->Some_0,
        decreases items.len() - i,
    {
        match &items[i] {
            Some(s) => {
                actions.push(s.clone());
            },
            None => {
                assert(model[i as int] is None);
                all_text = false;
                break;
            },
        }
        i = i + 1;
    }
    if !all_text {
        return DayEntry::new();
    }
    let r = DayEntry { note, actions };
    assert(all_strings(model));
    assert(r@.actions =~= strings_of(model));
    r
}

/// The entry that the text of a structured file holds. Empty text (a
/// missing file) and text that does not hold a string note and a list of
/// string actions give the empty entry; no error reaches the caller.
pub fn decode_entry(text: &str) -> (r: DayEntry)
    ensures
        r@ == loaded_entry(text@),
{
    let note_field = "note";
    let actions_field = "actions";
    proof {
        reveal_strlit("note");
        reveal_strlit("actions");
        assert(note_field@ =~= note_key());
        assert(actions_field@ =~= actions_key());
    }
    if text.is_empty() {
        return DayEntry::new();
    }
    let note = string_field(text, note_field);
    let items = list_field(text, actions_field);
    entry_from_fields(note, items)
}

/// The text of the structured file for `entry`. Decoding it gives `entry`
/// back.
pub fn encode_entry(entry: &DayEntry) -> (r: String)
    ensures
        r@ == entry_text(entry@),
        r@.len() > 0,
        json_string_field(r@, note_key()) == Some(entry@.note),
        json_list_field(r@, actions_key()) == Some(
            entry@.actions.map_values(|s: Seq<char>| Some(s)),
        ),
        loaded_entry(r@) == entry@,
{
    let note_field = "note";
    let actions_field = "actions";
    proof {
        reveal_strlit("note");
        reveal_strlit("actions");
        assert(note_field@ =~= note_key());
        assert(actions_field@ =~= actions_key());
    }
    let r = pretty_pair(note_field, entry.note.as_str(), actions_field, &entry.actions);
    proof {
        let items = entry@.actions.map_values(|s: Seq<char>| Some(s));
        assert(all_strings(items));
        assert(strings_of(items) =~= entry@.actions);
    }
    r
}

/// The conversion of one plain-text file of the older format.
pub struct Migration {
    /// The plain-text file, to delete once `content` is written.
    pub legacy_name: String,
    /// The structured file to write; it replaces any file of that name.
    pub target_name: String,
    /// Its text.
    pub content: String,
}

/// How the plain-text file of `date`, holding `note`, becomes a structured
/// file: an entry with that note, kept as it is, and no actions.
pub fn plan_migration(date: &Date, note: String) -> (r: Migration)
    ensures
        r.legacy_name@ == legacy_name(date@),
        r.target_name@ == entry_name(date@),
        r.content@ == entry_text(EntryModel { note: note@, actions: Seq::empty() }),
        loaded_entry(r.content@) == (EntryModel { note: note@, actions: Seq::empty() }),
{
    let entry = DayEntry::with_note(note);
    let content = encode_entry(&entry);
    Migration { legacy_name: legacy_file_name(date), target_name: entry_file_name(date), content }
}

} // verus!
