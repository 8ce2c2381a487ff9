//! The journal session: the day being edited, the days visited so far,
//! and the save-on-change policy that writes a day only when it differs
//! from what was last written.

use crate::date::{
    day_code, in_range, lemma_day_code_unique, lemma_next_prev_inverse, next_day, prev_day, Date,
    Ymd,
};
use crate::entry::{trimmed, DayEntry, EntryModel};
use crate::store::{decode_entry, encode_entry, entry_file_name, entry_name, entry_text, loaded_entry};
use std::collections::HashMap;
use vstd::prelude::*;

verus! {

broadcast use vstd::std_specs::hash::group_hash_axioms;

/// What a session holds, as mathematical values.
pub struct SessionModel {
    /// The entries of the days visited, by day code.
    pub entries: Map<u64, EntryModel>,
    /// The day being edited.
    pub current: Ymd,
    /// The entry as last written for the day being edited, if known.
    pub last_saved: Option<EntryModel>,
}

impl SessionModel {
    pub open spec fn current_entry(self) -> EntryModel {
        self.entries[day_code(self.current)]
    }

    /// The day being edited differs from what was last written for it.
    pub open spec fn needs_save(self) -> bool {
        self.last_saved != Some(self.current_entry())
    }

    /// The session once `entry` has been written for the day being edited.
    pub open spec fn saved(self, entry: EntryModel) -> SessionModel {
        SessionModel { last_saved: Some(entry), ..self }
    }

    /// The session once the entry of the day being edited is `entry`.
    pub open spec fn edited(self, entry: EntryModel) -> SessionModel {
        SessionModel { entries: self.entries.insert(day_code(self.current), entry), ..self }
    }

    /// The session once the cursor has moved to day `d`, whose file held
    /// an entry that reads as `loaded`. Moving to the day being edited
    /// changes nothing. Another day visited before keeps the entry it has in
    /// memory; what was last written for it is then not known.
    pub open spec fn visit(self, d: Ymd, loaded: EntryModel) -> SessionModel {
        if day_code(d) == day_code(self.current) {
            SessionModel { current: d, ..self }
        } else if self.entries.contains_key(day_code(d)) {
            SessionModel { current: d, last_saved: None, ..self }
        } else {
            SessionModel {
                entries: self.entries.insert(day_code(d), loaded),
                current: d,
                last_saved: Some(loaded),
            }
        }
    }
}

/// A write that the session asks for: `content` into the file `file_name`.
pub struct SaveRequest {
    pub file_name: String,
    pub content: String,
    /// The entry that `content` holds.
    pub entry: DayEntry,
}

/// The journal session.
pub struct Session {
    current: Date,
    entry: DayEntry,
    others: HashMap<u64, DayEntry>,
    last_saved: Option<DayEntry>,
}

impl View for Session {
    type V = SessionModel;

    closed spec fn view(&self) -> SessionModel {
        SessionModel {
            entries: self.others@.map_values(|e: DayEntry| e@).insert(
                day_code(self.current@),
                self.entry@,
            ),
            current: self.current@,
            last_saved: match self.last_saved {
                Some(e) => Some(e@),
                None => None,
            },
        }
    }
}

impl Session {
    /// A session on `today`, whose file holds `text` (empty when there is
    /// no file).
    pub fn open(today: Date, text: &str) -> (r: Session)
        ensures
            r@ == (SessionModel {
                entries: map![day_code(today@) => loaded_entry(text@)],
                current: today@,
                last_saved: Some(loaded_entry(text@)),
            }),
    {
        let entry = decode_entry(text);
        let saved = entry.copy();
        let r = Session { current: today, entry, others: HashMap::new(), last_saved: Some(saved) };
        assert(r@.entries =~= map![day_code(today@) => loaded_entry(text@)]);
        r
    }

    /// The session always holds an entry for the day being edited.
    pub proof fn lemma_holds_current(&self)
        ensures
            self@.entries.contains_key(day_code(self@.current)),
    {
    }

    /// The day being edited.
    pub fn current_date(&self) -> (r: Date)
        ensures
            r@ == self@.current,
    {
        self.current
    }

    /// The entry of the day being edited.
    pub fn current_entry(&self) -> (r: &DayEntry)
        ensures
            r@ == self@.current_entry(),
    {
        &self.entry
    }

    /// Whether `date` has not been visited in this session, so that its
    /// file must be read before moving to it.
    pub fn needs_load(&self, date: &Date) -> (r: bool)
        ensures
            r == !self@.entries.contains_key(day_code(date@)),
    {
        let code = date.code();
        code != self.current.code() && !self.others.contains_key(&code)
    }

    /// Replaces the note of the day being edited.
    pub fn set_note(&mut self, note: String)
        ensures
            final(self)@ == old(self)@.edited(
                EntryModel { note: note@, actions: old(self)@.current_entry().actions },
            ),
    {
        self.entry.set_note(note);
        assert(self@.entries =~= old(self)@.edited(
            EntryModel { note: note@, actions: old(self)@.current_entry().actions },
        ).entries);
    }

    /// Adds an action to the day being edited, as `DayEntry::add_action`
    /// does. Returns whether one was added.
    pub fn add_action(&mut self, text: &str) -> (r: bool)
        ensures
            r == (trimmed(text@).len() > 0),
            r ==> final(self)@ == old(self)@.edited(
                EntryModel {
                    note: old(self)@.current_entry().note,
                    actions: old(self)@.current_entry().actions.push(trimmed(text@)),
                },
            ),
            !r ==> final(self)@ == old(self)@,
    {
        let r = self.entry.add_action(text);
        assert(self@.entries =~= old(self)@.edited(self.entry@).entries);
        r
    }

    /// Removes the action at `index` from the day being edited.
    pub fn remove_action(&mut self, index: usize)
        requires
            index < old(self)@.current_entry().actions.len(),
        ensures
            final(self)@ == old(self)@.edited(
                EntryModel {
                    note: old(self)@.current_entry().note,
                    actions: old(self)@.current_entry().actions.remove(index as int),
                },
            ),
    {
        self.entry.remove_action(index);
        assert(self@.entries =~= old(self)@.edited(self.entry@).entries);
    }

    /// The write that saving the day being edited takes: none when it is
    /// what was last written, else its file name and the text of its
    /// structured file.
    pub fn pending_save(&self) -> (r: Option<SaveRequest>)
        ensures
            r is Some <==> self@.needs_save(),
            r is Some ==> r->Some_0.file_name@ == entry_name(self@.current),
            r is Some ==> r->Some_0.content@ == entry_text(self@.current_entry()),
            r is Some ==> loaded_entry(r->Some_0.content@) == self@.current_entry(),
            r is Some ==> r->Some_0.entry@ == self@.current_entry(),
    {
        let unchanged = match &self.last_saved {
            Some(saved) => saved.same_as(&self.entry),
            None => false,
        };
        if unchanged {
            return None;
        }
        let content = encode_entry(&self.entry);
        Some(
            SaveRequest {
                file_name: entry_file_name(&self.current),
                content,
                entry: self.entry.copy(),
            },
        )
    }

    /// Records that the write `request` asked for was made: its entry is now
    /// what was last written for the day being edited.
    pub fn confirm_save(&mut self, request: SaveRequest)
        ensures
            final(self)@ == old(self)@.saved(request.entry@),
    {
        self.last_saved = Some(request.entry);
    }

    /// Moves the cursor to `date`, whose file holds `text` (empty when there
    /// is no file; not read for a day visited before).
    pub fn go_to(&mut self, date: Date, text: &str)
        ensures
            final(self)@ == old(self)@.visit(date@, loaded_entry(text@)),
    {
        proof {
            use_type_invariant(&date);
            use_type_invariant(&self.current);
        }
        let ghost before = self@;
        let code = date.code();
        let here = self.current.code();
        if code == here {
            self.current = date;
            proof {
                lemma_day_code_unique(date@, before.current);
            }
            assert(self@.entries =~= before.entries);
            return;
        }
        let mut entry = match self.others.remove(&code) {
            Some(e) => {
                self.last_saved = None;
                e
            },
            None => {
                let e = decode_entry(text);
                self.last_saved = Some(e.copy());
                e
            },
        };
        std::mem::swap(&mut self.entry, &mut entry);
        self.others.insert(here, entry);
        self.current = date;
        assert(self@.entries =~= before.visit(date@, loaded_entry(text@)).entries);
    }
}

/// Saving twice in a row without a change in between writes once: once
/// the entry of the day being edited has been written, it needs no
/// further save.
pub proof fn lemma_save_is_idempotent(s: SessionModel)
    ensures
        !s.saved(s.current_entry()).needs_save(),
{
}

/// Moving a day forward and then a day back returns to the same day, with
/// its entry as it was, whatever the files of the two days read as.
pub proof fn lemma_forward_then_back(s: SessionModel, ahead: EntryModel, back: EntryModel)
    requires
        in_range(s.current),
        in_range(next_day(s.current)),
        s.entries.contains_key(day_code(s.current)),
    ensures
        ({
            let t = s.visit(next_day(s.current), ahead).visit(prev_day(next_day(s.current)), back);
            &&& t.current == s.current
            &&& t.current_entry() == s.current_entry()
        }),
{
    let d = s.current;
    lemma_next_prev_inverse(d);
    if day_code(next_day(d)) == day_code(d) {
        lemma_day_code_unique(next_day(d), d);
    }
}

} // verus!
