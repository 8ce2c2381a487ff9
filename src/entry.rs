//! One day's journal content: a note and an ordered list of actions.

use vstd::prelude::*;

verus! {

/// What a day entry holds, as mathematical values.
pub struct EntryModel {
    pub note: Seq<char>,
    pub actions: Seq<Seq<char>>,
}

impl EntryModel {
    /// The entry of a day nobody has written on: an empty note, no actions.
    pub open spec fn empty() -> EntryModel {
        EntryModel { note: Seq::empty(), actions: Seq::empty() }
    }
}

/// The text left of `s` once leading and trailing whitespace is removed.
pub uninterp spec fn trimmed(s: Seq<char>) -> Seq<char>;

/// `r` is a contiguous run of the characters of `s`.
pub open spec fn is_run_of(r: Seq<char>, s: Seq<char>) -> bool {
    exists|i: int, j: int| 0 <= i <= j <= s.len() && r == s.subrange(i, j)
}

/// Relies on `str::trim`: the result depends on the characters of `s`
/// alone and is the run of `s` left between its leading and trailing
/// whitespace.
#[verifier::external_body]
fn trim_text(s: &str) -> (r: String)
    ensures
        r@ == trimmed(s@),
        is_run_of(r@, s@),
{
    s.trim().to_string()
}

/// A day's note and its action items, in the order they were added.
#[derive(Clone, Debug)]
pub struct DayEntry {
    pub note: String,
    pub actions: Vec<String>,
}

impl View for DayEntry {
    type V = EntryModel;

    open spec fn view(&self) -> EntryModel {
        EntryModel { note: self.note@, actions: self.actions.deep_view() }
    }
}

impl PartialEq for DayEntry {
    fn eq(&self, other: &DayEntry) -> (r: bool) {
        self.same_as(other)
    }
}

impl vstd::std_specs::cmp::PartialEqSpecImpl for DayEntry {
    open spec fn obeys_eq_spec() -> bool {
        true
    }

    open spec fn eq_spec(&self, other: &DayEntry) -> bool {
        self@ == other@
    }
}

impl Default for DayEntry {
    fn default() -> (r: DayEntry)
        ensures
            r@ == EntryModel::empty(),
    {
        DayEntry::new()
    }
}

impl DayEntry {
    /// An empty entry: no note, no actions.
    pub fn new() -> (r: DayEntry)
        ensures
            r@ == EntryModel::empty(),
    {
        let r = DayEntry { note: String::new(), actions: Vec::new() };
        assert(r@.actions =~= Seq::<Seq<char>>::empty());
        r
    }

    /// An entry with the given note and no actions.
    pub fn with_note(note: String) -> (r: DayEntry)
        ensures
            r@ == (EntryModel { note: note@, actions: Seq::empty() }),
    {
        let r = DayEntry { note, actions: Vec::new() };
        assert(r@.actions =~= Seq::<Seq<char>>::empty());
        r
    }

    /// Whether two entries hold the same note and the same actions in the
    /// same order.
    pub fn same_as(&self, other: &DayEntry) -> (r: bool)
        ensures
            r == (self@ == other@),
    {
        if self.note != other.note || self.actions.len() != other.actions.len() {
            proof {
                if self@ == other@ {
                    assert(self@.actions.len() == other@.actions.len());
                }
            }
            return false;
        }
        let mut i: usize = 0;
        while i < self.actions.len()
            invariant
                self.actions.len() == other.actions.len(),
                i <= self.actions.len(),
                forall|k: int| 0 <= k < i ==> self.actions@[k]@ == other.actions@[k]@,
            decreases self.actions.len() - i,
        {
            if self.actions[i] != other.actions[i] {
                assert(self@.actions[i as int] != other@.actions[i as int]);
                return false;
            }
            i = i + 1;
        }
        assert(self@.actions =~= other@.actions);
        true
    }

    /// A copy of this entry.
    pub fn copy(&self) -> (r: DayEntry)
        ensures
            r@ == self@,
    {
        let mut actions: Vec<String> = Vec::new();
        let mut i: usize = 0;
        while i < self.actions.len()
            invariant
                i <= self.actions.len(),
                actions@.len() == i,
                forall|k: int| 0 <= k < i ==> actions@[k]@ == self.actions@[k]@,
            decreases self.actions.len() - i,
        {
            actions.push(self.actions[i].clone());
            i = i + 1;
        }
        let r = DayEntry { note: self.note.clone(), actions };
        assert(r@.actions =~= self@.actions);
        r
    }

    /// Replaces the note.
    pub fn set_note(&mut self, note: String)
        ensures
            final(self)@ == (EntryModel { note: note@, actions: old(self)@.actions }),
    {
        self.note = note;
    }

    /// Adds `text`, without its surrounding whitespace, at the end of the
    /// actions; text that is blank once trimmed adds nothing. Returns
    /// whether an action was added.
    pub fn add_action(&mut self, text: &str) -> (r: bool)
        ensures
            r == (trimmed(text@).len() > 0),
            r ==> final(self)@ == (EntryModel {
                note: old(self)@.note,
                actions: old(self)@.actions.push(trimmed(text@)),
            }),
            !r ==> final(self)@ == old(self)@,
    {
        let item = trim_text(text);
        if item.as_str().is_empty() {
            return false;
        }
        let ghost before = self@;
        self.actions.push(item);
        assert(self@.actions =~= before.actions.push(trimmed(text@)));
        true
    }

    /// Removes the action at `index`; the actions after it move down by one.
    pub fn remove_action(&mut self, index: usize) -> (r: String)
        requires
            index < old(self)@.actions.len(),
        ensures
            r@ == old(self)@.actions[index as int],
            final(self)@ == (EntryModel {
                note: old(self)@.note,
                actions: old(self)@.actions.remove(index as int),
            }),
    {
        let ghost before = self@;
        let r = self.actions.remove(index);
        assert(self@.actions =~= before.actions.remove(index as int));
        r
    }
}

/// Adding an action and then removing it by its position leaves the
/// action list as it was.
pub proof fn lemma_add_then_remove(actions: Seq<Seq<char>>, item: Seq<char>)
    ensures
        actions.push(item).remove(actions.len() as int) == actions,
{
    assert(actions.push(item).remove(actions.len() as int) =~= actions);
}

/// Removing the action at `index` keeps the others in their order: those
/// before it stay where they were and those after it move down by one.
pub proof fn lemma_remove_keeps_order(actions: Seq<Seq<char>>, index: int)
    requires
        0 <= index < actions.len(),
    ensures
        ({
            let rest = actions.remove(index);
            &&& rest.len() == actions.len() - 1
            &&& forall|j: int| 0 <= j < index ==> rest[j] == actions[j]
            &&& forall|j: int| index <= j < rest.len() ==> rest[j] == actions[j + 1]
        }),
{
}

} // verus!
