//! Journal operations: the single-entry-per-date lookup, the upsert keyed on
//! `entry_date`, and the idempotent delete.
use vstd::prelude::*;

use crate::models::{JournalEntry, UpsertEntryInput};
use crate::store::{entries_unique, has_entry_date, has_entry_id, Store};

verus! {

/// The same entry with its content and mood replaced.
pub open spec fn with_content(e: JournalEntry, content: String, mood: Option<String>) -> JournalEntry {
    JournalEntry { id: e.id, entry_date: e.entry_date, content, mood }
}

/// How an entry created by the upsert relates to its input.
pub open spec fn entry_created_from(e: JournalEntry, input: UpsertEntryInput) -> bool {
    &&& e.entry_date == input.entry_date
    &&& e.content == input.content
    &&& e.mood == input.mood
}

/// True when `post` is `pre` with the entry dated as the input replaced by
/// `e`: that entry, its id kept, holding the input's content and mood.
pub open spec fn entry_upserted_in_place(
    pre: Seq<JournalEntry>,
    post: Seq<JournalEntry>,
    input: UpsertEntryInput,
    e: JournalEntry,
) -> bool {
    exists|i: int|
        0 <= i < pre.len() && (#[trigger] pre[i]).entry_date@ == input.entry_date@ && e
            == with_content(pre[i], input.content, input.mood) && post == pre.update(i, e)
}

impl Store {
    /// The single entry for the date, or `None` when the date has none — a
    /// valid empty result, not an error.
    pub fn get_entry_for_date(&self, date: String) -> (r: Option<JournalEntry>)
        ensures
            match r {
                Some(e) => e.entry_date@ == date@ && self.entries@.contains(e),
                None => !has_entry_date(self.entries@, date@),
            },
    {
        match self.find_entry_date(date.as_str()) {
            Some(i) => {
                let e = self.entries[i].clone();
                proof {
                    assert(self.entries@.contains(self.entries@[i as int]));
                }
                Some(e)
            },
            None => None,
        }
    }

    /// The upsert, with an already-generated id for the created case: when
    /// an entry exists for the input's date its content and mood are
    /// replaced, its id kept; otherwise a new entry for that date is stored
    /// under the given id — so a date never holds two entries. Refused only
    /// when a new row is needed and the id is taken.
    pub fn upsert_entry_with_id(&mut self, input: UpsertEntryInput, id: String) -> (r: Result<
        JournalEntry,
        String,
    >)
        requires
            old(self).wf(),
        ensures
            final(self).wf(),
            final(self).tasks@ == old(self).tasks@,
            final(self).goals@ == old(self).goals@,
            has_entry_date(old(self).entries@, input.entry_date@) ==> r is Ok
                && entry_upserted_in_place(old(self).entries@, final(self).entries@, input, r->Ok_0),
            !has_entry_date(old(self).entries@, input.entry_date@) && has_entry_id(
                old(self).entries@,
                id@,
            ) ==> r is Err && r->Err_0@ == "id already exists"@ && final(self).entries@ == old(
                self,
            ).entries@,
            !has_entry_date(old(self).entries@, input.entry_date@) && !has_entry_id(
                old(self).entries@,
                id@,
            ) ==> r is Ok && {
                &&& entry_created_from(r->Ok_0, input)
                &&& (r->Ok_0).id == id
                &&& final(self).entries@ == old(self).entries@.push(r->Ok_0)
            },
    {
        let ghost old_entries = self.entries@;
        if let Some(idx) = self.find_entry_date(input.entry_date.as_str()) {
            let mut ne = self.entries[idx].clone();
            ne.content = input.content;
            ne.mood = input.mood;
            let stored = ne.clone();
            self.entries[idx] = stored;
            proof {
                assert forall|p: int, q: int|
                    0 <= p < q < self.entries@.len() implies self.entries@[p].id@
                    != self.entries@[q].id@ && self.entries@[p].entry_date@
                    != self.entries@[q].entry_date@ by {
                    assert(old_entries[p].id@ != old_entries[q].id@);
                    assert(old_entries[p].entry_date@ != old_entries[q].entry_date@);
                }
                let i = idx as int;
                assert(0 <= i < old_entries.len() && old_entries[i].entry_date@
                    == input.entry_date@ && ne == with_content(
                    old_entries[i],
                    input.content,
                    input.mood,
                ) && self.entries@ == old_entries.update(i, ne));
                assert(entry_upserted_in_place(old_entries, self.entries@, input, ne));
            }
            return Ok(ne);
        }
        if self.find_entry(id.as_str()).is_some() {
            return Err(crate::store::duplicate_id_message());
        }
        let e = JournalEntry {
            id,
            entry_date: input.entry_date,
            content: input.content,
            mood: input.mood,
        };
        let stored = e.clone();
        self.entries.push(stored);
        Ok(e)
    }

    /// The upsert under a fresh random id: replaces the entry for the
    /// input's date, or creates the date's first entry. Succeeds unless a
    /// new row is needed and the generated id happens to collide — in
    /// particular, success is owed whenever no stored id even has a drawn
    /// id's 36-character length.
    pub fn upsert_entry(&mut self, input: UpsertEntryInput) -> (r: Result<JournalEntry, String>)
        requires
            old(self).wf(),
        ensures
            final(self).wf(),
            final(self).tasks@ == old(self).tasks@,
            final(self).goals@ == old(self).goals@,
            r is Err ==> final(self).entries@ == old(self).entries@,
            crate::store::no_entry_id_of_len(old(self).entries@, 36) ==> r is Ok,
            has_entry_date(old(self).entries@, input.entry_date@) ==> r is Ok
                && entry_upserted_in_place(old(self).entries@, final(self).entries@, input, r->Ok_0),
            !has_entry_date(old(self).entries@, input.entry_date@) && r is Ok ==> {
                &&& entry_created_from(r->Ok_0, input)
                &&& !has_entry_id(old(self).entries@, (r->Ok_0).id@)
                &&& final(self).entries@ == old(self).entries@.push(r->Ok_0)
            },
    {
        let id = crate::ids::new_uuid();
        proof {
            if crate::store::no_entry_id_of_len(self.entries@, 36) && has_entry_id(
                self.entries@,
                id@,
            ) {
                let i = choose|i: int| 0 <= i < self.entries@.len() && self.entries@[i].id@ == id@;
                assert(self.entries@[i].id@.len() != 36);
            }
        }
        self.upsert_entry_with_id(input, id)
    }

    /// Removes the entry with the id; removing an unknown id is a success
    /// that changes nothing.
    pub fn delete_entry(&mut self, id: String) -> (r: Result<(), String>)
        requires
            old(self).wf(),
        ensures
            final(self).wf(),
            final(self).tasks@ == old(self).tasks@,
            final(self).goals@ == old(self).goals@,
            r is Ok,
            !has_entry_id(old(self).entries@, id@) ==> final(self).entries@ == old(self).entries@,
            has_entry_id(old(self).entries@, id@) ==> exists|i: int|
                {
                    &&& 0 <= i < old(self).entries@.len()
                    &&& old(self).entries@[i].id@ == id@
                    &&& final(self).entries@ == old(self).entries@.remove(i)
                },
    {
        let ghost old_entries = self.entries@;
        if let Some(i) = self.find_entry(id.as_str()) {
            self.entries.remove(i);
            proof {
                assert forall|p: int, q: int|
                    0 <= p < q < self.entries@.len() implies self.entries@[p].id@
                    != self.entries@[q].id@ && self.entries@[p].entry_date@
                    != self.entries@[q].entry_date@ by {
                    let pp = if p < i { p } else { p + 1 };
                    let qq = if q < i { q } else { q + 1 };
                    assert(self.entries@[p] == old_entries[pp]);
                    assert(self.entries@[q] == old_entries[qq]);
                }
            }
        }
        Ok(())
    }
}

} // verus!
