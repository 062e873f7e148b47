//! The store: the single owner of all tasks, daily goals and journal
//! entries. It enforces the uniqueness invariants (unique ids everywhere, one
//! goal per `(goal_date, goal_order)` slot, one journal entry per date); the
//! entity operations live in the `tasks`, `goals` and `journal` modules and
//! preserve `Store::wf`.
use vstd::prelude::*;

use crate::models::{DailyGoal, JournalEntry, Task};

verus! {

/// True when no two tasks share an id.
pub open spec fn task_ids_unique(s: Seq<Task>) -> bool {
    forall|i: int, j: int| 0 <= i < j < s.len() ==> s[i].id@ != s[j].id@
}

/// True when some task carries the id.
pub open spec fn has_task_id(s: Seq<Task>, id: Seq<char>) -> bool {
    exists|i: int| 0 <= i < s.len() && s[i].id@ == id
}

/// True when no stored task id has the given length; a freshly drawn id of
/// that length then cannot collide.
pub open spec fn no_task_id_of_len(s: Seq<Task>, n: nat) -> bool {
    forall|i: int| 0 <= i < s.len() ==> (#[trigger] s[i]).id@.len() != n
}

/// True when no stored goal id has the given length.
pub open spec fn no_goal_id_of_len(s: Seq<DailyGoal>, n: nat) -> bool {
    forall|i: int| 0 <= i < s.len() ==> (#[trigger] s[i]).id@.len() != n
}

/// True when no stored entry id has the given length.
pub open spec fn no_entry_id_of_len(s: Seq<JournalEntry>, n: nat) -> bool {
    forall|i: int| 0 <= i < s.len() ==> (#[trigger] s[i]).id@.len() != n
}

/// True when no two goals share an id and no two goals occupy the same
/// `(goal_date, goal_order)` slot.
pub open spec fn goals_unique(s: Seq<DailyGoal>) -> bool {
    forall|i: int, j: int|
        0 <= i < j < s.len() ==> s[i].id@ != s[j].id@ && !(s[i].goal_date@ == s[j].goal_date@
            && s[i].goal_order == s[j].goal_order)
}

/// True when some goal carries the id.
pub open spec fn has_goal_id(s: Seq<DailyGoal>, id: Seq<char>) -> bool {
    exists|i: int| 0 <= i < s.len() && s[i].id@ == id
}

/// True when some goal occupies the `(date, order)` slot.
pub open spec fn has_goal_slot(s: Seq<DailyGoal>, date: Seq<char>, order: i32) -> bool {
    exists|i: int| 0 <= i < s.len() && s[i].goal_date@ == date && s[i].goal_order == order
}

/// True when no two entries share an id and no two entries share a date.
pub open spec fn entries_unique(s: Seq<JournalEntry>) -> bool {
    forall|i: int, j: int|
        0 <= i < j < s.len() ==> s[i].id@ != s[j].id@ && s[i].entry_date@ != s[j].entry_date@
}

/// True when some entry carries the id.
pub open spec fn has_entry_id(s: Seq<JournalEntry>, id: Seq<char>) -> bool {
    exists|i: int| 0 <= i < s.len() && s[i].id@ == id
}

/// True when some entry is dated `date`.
pub open spec fn has_entry_date(s: Seq<JournalEntry>, date: Seq<char>) -> bool {
    exists|i: int| 0 <= i < s.len() && s[i].entry_date@ == date
}

/// All persisted state. One store stands for the application's single
/// database; a shell that wants the data on disk mirrors every change this
/// type's operations report.
pub struct Store {
    pub tasks: Vec<Task>,
    pub goals: Vec<DailyGoal>,
    pub entries: Vec<JournalEntry>,
}

impl Store {
    /// The uniqueness invariants of §the data model: every operation of the
    /// store preserves this.
    pub open spec fn wf(self) -> bool {
        task_ids_unique(self.tasks@) && goals_unique(self.goals@) && entries_unique(self.entries@)
    }

    /// An empty store.
    pub fn new() -> (s: Store)
        ensures
            s.wf(),
            s.tasks@ =~= Seq::<Task>::empty(),
            s.goals@ =~= Seq::<DailyGoal>::empty(),
            s.entries@ =~= Seq::<JournalEntry>::empty(),
    {
        Store { tasks: Vec::new(), goals: Vec::new(), entries: Vec::new() }
    }

    /// Index of the task with the given id, if any.
    pub fn find_task(&self, id: &str) -> (r: Option<usize>)
        ensures
            match r {
                Some(i) => i < self.tasks@.len() && self.tasks@[i as int].id@ == id@,
                None => !has_task_id(self.tasks@, id@),
            },
    {
        let n = self.tasks.len();
        let mut i: usize = 0;
        while i < n
            invariant
                i <= n,
                n == self.tasks@.len(),
                forall|k: int| 0 <= k < i ==> self.tasks@[k].id@ != id@,
            decreases n - i,
        {
            if crate::strings::str_eq(self.tasks[i].id.as_str(), id) {
                return Some(i);
            }
            i += 1;
        }
        None
    }

    /// Index of the goal with the given id, if any.
    pub fn find_goal(&self, id: &str) -> (r: Option<usize>)
        ensures
            match r {
                Some(i) => i < self.goals@.len() && self.goals@[i as int].id@ == id@,
                None => !has_goal_id(self.goals@, id@),
            },
    {
        let n = self.goals.len();
        let mut i: usize = 0;
        while i < n
            invariant
                i <= n,
                n == self.goals@.len(),
                forall|k: int| 0 <= k < i ==> self.goals@[k].id@ != id@,
            decreases n - i,
        {
            if crate::strings::str_eq(self.goals[i].id.as_str(), id) {
                return Some(i);
            }
            i += 1;
        }
        None
    }

    /// Index of the goal in the `(date, order)` slot, if any.
    pub fn find_goal_slot(&self, date: &str, order: i32) -> (r: Option<usize>)
        ensures
            match r {
                Some(i) => i < self.goals@.len() && self.goals@[i as int].goal_date@ == date@
                    && self.goals@[i as int].goal_order == order,
                None => !has_goal_slot(self.goals@, date@, order),
            },
    {
        let n = self.goals.len();
        let mut i: usize = 0;
        while i < n
            invariant
                i <= n,
                n == self.goals@.len(),
                forall|k: int|
                    0 <= k < i ==> !(self.goals@[k].goal_date@ == date@ && self.goals@[k].goal_order
                        == order),
            decreases n - i,
        {
            if self.goals[i].goal_order == order && crate::strings::str_eq(
                self.goals[i].goal_date.as_str(),
                date,
            ) {
                return Some(i);
            }
            i += 1;
        }
        None
    }

    /// Index of the entry with the given id, if any.
    pub fn find_entry(&self, id: &str) -> (r: Option<usize>)
        ensures
            match r {
                Some(i) => i < self.entries@.len() && self.entries@[i as int].id@ == id@,
                None => !has_entry_id(self.entries@, id@),
            },
    {
        let n = self.entries.len();
        let mut i: usize = 0;
        while i < n
            invariant
                i <= n,
                n == self.entries@.len(),
                forall|k: int| 0 <= k < i ==> self.entries@[k].id@ != id@,
            decreases n - i,
        {
            if crate::strings::str_eq(self.entries[i].id.as_str(), id) {
                return Some(i);
            }
            i += 1;
        }
        None
    }

    /// Index of the entry dated `date`, if any.
    pub fn find_entry_date(&self, date: &str) -> (r: Option<usize>)
        ensures
            match r {
                Some(i) => i < self.entries@.len() && self.entries@[i as int].entry_date@ == date@,
                None => !has_entry_date(self.entries@, date@),
            },
    {
        let n = self.entries.len();
        let mut i: usize = 0;
        while i < n
            invariant
                i <= n,
                n == self.entries@.len(),
                forall|k: int| 0 <= k < i ==> self.entries@[k].entry_date@ != date@,
            decreases n - i,
        {
            if crate::strings::str_eq(self.entries[i].entry_date.as_str(), date) {
                return Some(i);
            }
            i += 1;
        }
        None
    }

    /// Adds an already-complete task row, as when reading persisted state
    /// back in; refused when its id is taken.
    pub fn load_task(&mut self, t: Task) -> (r: Result<(), String>)
        requires
            old(self).wf(),
        ensures
            final(self).wf(),
            final(self).goals@ == old(self).goals@,
            final(self).entries@ == old(self).entries@,
            has_task_id(old(self).tasks@, t.id@) ==> r is Err && final(self).tasks@ == old(
                self,
            ).tasks@,
            !has_task_id(old(self).tasks@, t.id@) ==> r is Ok && final(self).tasks@ == old(
                self,
            ).tasks@.push(t),
    {
        if self.find_task(t.id.as_str()).is_some() {
            return Err(duplicate_id_message());
        }
        self.tasks.push(t);
        Ok(())
    }

    /// Adds an already-complete goal row; refused when its id or its
    /// `(goal_date, goal_order)` slot is taken.
    pub fn load_goal(&mut self, g: DailyGoal) -> (r: Result<(), String>)
        requires
            old(self).wf(),
        ensures
            final(self).wf(),
            final(self).tasks@ == old(self).tasks@,
            final(self).entries@ == old(self).entries@,
            has_goal_id(old(self).goals@, g.id@) || has_goal_slot(
                old(self).goals@,
                g.goal_date@,
                g.goal_order,
            ) ==> r is Err && final(self).goals@ == old(self).goals@,
            !(has_goal_id(old(self).goals@, g.id@) || has_goal_slot(
                old(self).goals@,
                g.goal_date@,
                g.goal_order,
            )) ==> r is Ok && final(self).goals@ == old(self).goals@.push(g),
    {
        if self.find_goal(g.id.as_str()).is_some() {
            return Err(duplicate_id_message());
        }
        if self.find_goal_slot(g.goal_date.as_str(), g.goal_order).is_some() {
            return Err(duplicate_slot_message());
        }
        self.goals.push(g);
        Ok(())
    }

    /// Adds an already-complete journal row; refused when its id or date is
    /// taken.
    pub fn load_entry(&mut self, e: JournalEntry) -> (r: Result<(), String>)
        requires
            old(self).wf(),
        ensures
            final(self).wf(),
            final(self).tasks@ == old(self).tasks@,
            final(self).goals@ == old(self).goals@,
            has_entry_id(old(self).entries@, e.id@) || has_entry_date(
                old(self).entries@,
                e.entry_date@,
            ) ==> r is Err && final(self).entries@ == old(self).entries@,
            !(has_entry_id(old(self).entries@, e.id@) || has_entry_date(
                old(self).entries@,
                e.entry_date@,
            )) ==> r is Ok && final(self).entries@ == old(self).entries@.push(e),
    {
        if self.find_entry(e.id.as_str()).is_some() {
            return Err(duplicate_id_message());
        }
        if self.find_entry_date(e.entry_date.as_str()).is_some() {
            return Err(duplicate_date_message());
        }
        self.entries.push(e);
        Ok(())
    }
}

pub fn duplicate_id_message() -> (r: String)
    ensures
        r@ == "id already exists"@,
{
    "id already exists".to_owned()
}

pub fn duplicate_slot_message() -> (r: String)
    ensures
        r@ == "a goal already occupies this date and order"@,
{
    "a goal already occupies this date and order".to_owned()
}

pub fn duplicate_date_message() -> (r: String)
    ensures
        r@ == "an entry already exists for this date"@,
{
    "an entry already exists for this date".to_owned()
}

} // verus!
