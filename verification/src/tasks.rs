//! Task operations: creation with defaults, partial update, idempotent
//! delete, the atomic completion toggle, and the date-range listing ordered
//! by `(scheduled_date, scheduled_time)` with absent times first.
use vstd::prelude::*;

use crate::models::{CreateTaskInput, Task, UpdateTaskInput};
use crate::store::{has_task_id, Store};
use crate::strings::{
    lemma_lex_le_antisymmetric, lemma_lex_le_total, lemma_lex_le_transitive, lex_le, str_eq,
    str_lex_le,
};

verus! {

/// The priorities the store accepts.
pub open spec fn valid_priority(p: Seq<char>) -> bool {
    p == "high"@ || p == "medium"@ || p == "low"@
}

/// True when the input's priority, if present, is one the store accepts.
pub open spec fn priority_ok(p: Option<String>) -> bool {
    match p {
        Some(s) => valid_priority(s@),
        None => true,
    }
}

/// How a freshly created row relates to its input: fields copied, the
/// documented defaults applied (30 minutes, "medium", not completed).
pub open spec fn created_from(t: Task, input: CreateTaskInput) -> bool {
    &&& t.title == input.title
    &&& t.description == input.description
    &&& t.scheduled_date == input.scheduled_date
    &&& t.scheduled_time == input.scheduled_time
    &&& t.duration_minutes == (match input.duration_minutes {
        Some(d) => d,
        None => 30,
    })
    &&& t.priority@ == (match input.priority {
        Some(p) => p@,
        None => "medium"@,
    })
    &&& t.is_completed == false
    &&& t.reminder_minutes == input.reminder_minutes
}

/// True when the partial update carries no field at all.
pub open spec fn no_update_fields(u: UpdateTaskInput) -> bool {
    &&& u.title is None
    &&& u.description is None
    &&& u.scheduled_date is None
    &&& u.scheduled_time is None
    &&& u.duration_minutes is None
    &&& u.priority is None
    &&& u.is_completed is None
    &&& u.reminder_minutes is None
}

/// The row a partial update produces: present fields replace the stored
/// ones, absent fields keep their prior values; id and creation time never
/// change.
pub open spec fn apply_update(t: Task, u: UpdateTaskInput) -> Task {
    Task {
        id: t.id,
        title: match u.title {
            Some(s) => s,
            None => t.title,
        },
        description: match u.description {
            Some(s) => Some(s),
            None => t.description,
        },
        scheduled_date: match u.scheduled_date {
            Some(s) => s,
            None => t.scheduled_date,
        },
        scheduled_time: match u.scheduled_time {
            Some(s) => Some(s),
            None => t.scheduled_time,
        },
        duration_minutes: match u.duration_minutes {
            Some(d) => d,
            None => t.duration_minutes,
        },
        priority: match u.priority {
            Some(s) => s,
            None => t.priority,
        },
        is_completed: match u.is_completed {
            Some(b) => b,
            None => t.is_completed,
        },
        reminder_minutes: match u.reminder_minutes {
            Some(m) => Some(m),
            None => t.reminder_minutes,
        },
        created_at: t.created_at,
    }
}

/// The same task with its completion mark flipped.
pub open spec fn toggled_task(t: Task) -> Task {
    Task {
        id: t.id,
        title: t.title,
        description: t.description,
        scheduled_date: t.scheduled_date,
        scheduled_time: t.scheduled_time,
        duration_minutes: t.duration_minutes,
        priority: t.priority,
        is_completed: !t.is_completed,
        reminder_minutes: t.reminder_minutes,
        created_at: t.created_at,
    }
}

/// True when `post` is `pre` with the row holding `id` replaced by `t`, the
/// result of applying the partial update `u` to it.
pub open spec fn task_updated(
    pre: Seq<Task>,
    post: Seq<Task>,
    id: Seq<char>,
    t: Task,
    u: UpdateTaskInput,
) -> bool {
    exists|i: int|
        0 <= i < pre.len() && (#[trigger] pre[i]).id@ == id && t == apply_update(pre[i], u) && post
            == pre.update(i, t)
}

/// True when `post` is `pre` with the row holding `id` replaced by `t`, that
/// row with its completion mark flipped.
pub open spec fn task_toggled_at(pre: Seq<Task>, post: Seq<Task>, id: Seq<char>, t: Task) -> bool {
    exists|i: int|
        0 <= i < pre.len() && (#[trigger] pre[i]).id@ == id && t == toggled_task(pre[i]) && post
            == pre.update(i, t)
}

/// Order on optional times: an absent time sorts before every present one.
pub open spec fn time_key_le(a: Option<String>, b: Option<String>) -> bool {
    match (a, b) {
        (Option::None, _) => true,
        (Option::Some(_), Option::None) => false,
        (Option::Some(x), Option::Some(y)) => lex_le(x@, y@),
    }
}

/// The listing order: by scheduled date, then by scheduled time.
pub open spec fn task_le(a: Task, b: Task) -> bool {
    if a.scheduled_date@ == b.scheduled_date@ {
        time_key_le(a.scheduled_time, b.scheduled_time)
    } else {
        lex_le(a.scheduled_date@, b.scheduled_date@)
    }
}

/// True when the sequence is in listing order.
pub open spec fn tasks_sorted(s: Seq<Task>) -> bool {
    forall|i: int, j: int| 0 <= i < j < s.len() ==> task_le(s[i], s[j])
}

/// True when the task's date lies in the inclusive range.
pub open spec fn task_in_range(t: Task, start: Seq<char>, end: Seq<char>) -> bool {
    lex_le(start, t.scheduled_date@) && lex_le(t.scheduled_date@, end)
}

/// The subsequence of tasks whose date lies in the inclusive range, in
/// stored order.
pub open spec fn range_filter(s: Seq<Task>, start: Seq<char>, end: Seq<char>) -> Seq<Task>
    decreases s.len(),
{
    if s.len() == 0 {
        Seq::empty()
    } else {
        let rest = range_filter(s.drop_last(), start, end);
        if task_in_range(s.last(), start, end) {
            rest.push(s.last())
        } else {
            rest
        }
    }
}

/// Every listed task lies in the range and comes from the stored sequence.
pub proof fn lemma_range_filter_members(s: Seq<Task>, start: Seq<char>, end: Seq<char>)
    ensures
        forall|k: int|
            0 <= k < range_filter(s, start, end).len() ==> task_in_range(
                #[trigger] range_filter(s, start, end)[k],
                start,
                end,
            ) && s.contains(range_filter(s, start, end)[k]),
    decreases s.len(),
{
    if s.len() != 0 {
        lemma_range_filter_members(s.drop_last(), start, end);
        let rest = range_filter(s.drop_last(), start, end);
        let rf = range_filter(s, start, end);
        assert forall|k: int|
            0 <= k < rf.len() implies task_in_range(#[trigger] rf[k], start, end) && s.contains(
            rf[k],
        ) by {
            if task_in_range(s.last(), start, end) && k == rf.len() - 1 {
                assert(rf[k] == s.last());
                assert(s[s.len() - 1] == s.last());
                assert(s.contains(s.last()));
            } else {
                assert(rf[k] == rest[k]);
                assert(s.drop_last().contains(rest[k]));
                let m = choose|m: int| 0 <= m < s.drop_last().len() && s.drop_last()[m] == rest[k];
                assert(s[m] == rest[k]);
                assert(s.contains(rf[k]));
            }
        }
    }
}

/// Any two tasks are comparable in listing order.
pub proof fn lemma_task_le_total(a: Task, b: Task)
    ensures
        task_le(a, b) || task_le(b, a),
{
    if a.scheduled_date@ == b.scheduled_date@ {
        match (a.scheduled_time, b.scheduled_time) {
            (Option::Some(x), Option::Some(y)) => lemma_lex_le_total(x@, y@),
            _ => {},
        }
    } else {
        lemma_lex_le_total(a.scheduled_date@, b.scheduled_date@);
    }
}

/// The listing order is transitive.
pub proof fn lemma_task_le_transitive(a: Task, b: Task, c: Task)
    requires
        task_le(a, b),
        task_le(b, c),
    ensures
        task_le(a, c),
{
    let da = a.scheduled_date@;
    let db = b.scheduled_date@;
    let dc = c.scheduled_date@;
    if da == db && db == dc {
        match (a.scheduled_time, b.scheduled_time, c.scheduled_time) {
            (Option::Some(x), Option::Some(y), Option::Some(z)) => {
                lemma_lex_le_transitive(x@, y@, z@);
            },
            _ => {},
        }
    } else if da == db {
        // task_le(b, c) compares the dates, and a's date is b's
    } else if db == dc {
        // task_le(a, b) compares the dates, and c's date is b's
        if da == dc {
            lemma_lex_le_antisymmetric(da, db);
        }
    } else {
        lemma_lex_le_transitive(da, db, dc);
        if da == dc {
            lemma_lex_le_antisymmetric(da, db);
        }
    }
}

/// Executable listing-order comparison.
pub fn task_le_exec(a: &Task, b: &Task) -> (r: bool)
    ensures
        r == task_le(*a, *b),
{
    if str_eq(a.scheduled_date.as_str(), b.scheduled_date.as_str()) {
        match (&a.scheduled_time, &b.scheduled_time) {
            (Option::None, _) => true,
            (Option::Some(_), Option::None) => false,
            (Option::Some(x), Option::Some(y)) => str_lex_le(x.as_str(), y.as_str()),
        }
    } else {
        str_lex_le(a.scheduled_date.as_str(), b.scheduled_date.as_str())
    }
}

/// Executable check of the accepted priorities.
pub fn priority_valid_exec(p: &str) -> (r: bool)
    ensures
        r == valid_priority(p@),
{
    str_eq(p, "high") || str_eq(p, "medium") || str_eq(p, "low")
}

fn invalid_priority_message() -> (r: String)
    ensures
        r@ == "priority must be high, medium or low"@,
{
    "priority must be high, medium or low".to_owned()
}

fn no_fields_message() -> (r: String)
    ensures
        r@ == "No fields to update"@,
{
    "No fields to update".to_owned()
}

fn task_not_found_message() -> (r: String)
    ensures
        r@ == "task not found"@,
{
    "task not found".to_owned()
}

/// Where the new element keeps the sequence sorted.
fn insert_pos(out: &Vec<Task>, t: &Task) -> (j: usize)
    requires
        tasks_sorted(out@),
    ensures
        j <= out@.len(),
        forall|k: int| 0 <= k < j ==> task_le(out@[k], *t),
        j < out@.len() ==> !task_le(out@[j as int], *t),
{
    let n = out.len();
    let mut j: usize = 0;
    while j < n
        invariant
            j <= n,
            n == out@.len(),
            forall|k: int| 0 <= k < j ==> task_le(out@[k], *t),
        decreases n - j,
    {
        if !task_le_exec(&out[j], t) {
            return j;
        }
        j += 1;
    }
    j
}

/// Sorts into listing order; the result holds exactly the given rows.
fn sort_tasks(v: Vec<Task>) -> (r: Vec<Task>)
    ensures
        tasks_sorted(r@),
        r@.to_multiset() == v@.to_multiset(),
{
    broadcast use vstd::seq_lib::group_to_multiset_ensures;

    let n = v.len();
    let mut out: Vec<Task> = Vec::new();
    let mut i: usize = 0;
    proof {
        assert(v@.take(0) =~= Seq::<Task>::empty());
        assert(out@.to_multiset() =~= v@.take(0).to_multiset());
    }
    while i < n
        invariant
            i <= n,
            n == v@.len(),
            tasks_sorted(out@),
            out@.to_multiset() == v@.take(i as int).to_multiset(),
        decreases n - i,
    {
        let t = v[i].clone();
        let j = insert_pos(&out, &t);
        let ghost pre = out@;
        proof {
            if (j as int) < pre.len() {
                lemma_task_le_total(pre[j as int], t);
                assert forall|k: int| j <= k < pre.len() implies task_le(t, pre[k]) by {
                    if k > j {
                        lemma_task_le_transitive(t, pre[j as int], pre[k]);
                    }
                }
            }
        }
        out.insert(j, t);
        proof {
            let post = out@;
            assert forall|p: int, q: int| 0 <= p < q < post.len() implies task_le(
                post[p],
                post[q],
            ) by {
                assert(post[p] == (if p < j { pre[p] } else if p == j { t } else { pre[p - 1] }));
                assert(post[q] == (if q < j { pre[q] } else if q == j { t } else { pre[q - 1] }));
            }
            broadcast use vstd::seq_lib::to_multiset_insert;

            assert(post.to_multiset() == pre.to_multiset().insert(t));
            v@.lemma_take_succ_push(i as int);
            assert(v@.take(i as int + 1) == v@.take(i as int).push(v@[i as int]));
            vstd::seq_lib::to_multiset_build::<Task>(v@.take(i as int), v@[i as int]);
        }
        i += 1;
    }
    proof {
        assert(v@.take(n as int) =~= v@);
    }
    out
}

impl Store {
    /// All tasks with `scheduled_date` in `[start_date, end_date]`
    /// inclusive, ordered by `(scheduled_date, scheduled_time)` with absent
    /// times first. A pure read.
    pub fn get_tasks_for_date_range(&self, start_date: String, end_date: String) -> (r: Vec<Task>)
        ensures
            tasks_sorted(r@),
            r@.to_multiset() == range_filter(self.tasks@, start_date@, end_date@).to_multiset(),
            forall|k: int|
                0 <= k < r@.len() ==> task_in_range(#[trigger] r@[k], start_date@, end_date@)
                    && self.tasks@.contains(r@[k]),
    {
        broadcast use vstd::seq_lib::group_to_multiset_ensures;

        let n = self.tasks.len();
        let mut picked: Vec<Task> = Vec::new();
        let mut i: usize = 0;
        proof {
            assert(self.tasks@.take(0) =~= Seq::<Task>::empty());
        }
        while i < n
            invariant
                i <= n,
                n == self.tasks@.len(),
                picked@ == range_filter(self.tasks@.take(i as int), start_date@, end_date@),
            decreases n - i,
        {
            let t = &self.tasks[i];
            let in_lo = str_lex_le(start_date.as_str(), t.scheduled_date.as_str());
            let in_hi = str_lex_le(t.scheduled_date.as_str(), end_date.as_str());
            proof {
                let pre = self.tasks@.take(i as int);
                let post = self.tasks@.take(i as int + 1);
                assert(post.drop_last() =~= pre);
                assert(post.last() == self.tasks@[i as int]);
            }
            if in_lo && in_hi {
                picked.push(t.clone());
            }
            i += 1;
        }
        proof {
            assert(self.tasks@.take(n as int) =~= self.tasks@);
        }
        let r = sort_tasks(picked);
        proof {
            lemma_range_filter_members(self.tasks@, start_date@, end_date@);
            let rf = range_filter(self.tasks@, start_date@, end_date@);
            assert forall|k: int|
                0 <= k < r@.len() implies task_in_range(#[trigger] r@[k], start_date@, end_date@)
                && self.tasks@.contains(r@[k]) by {
                assert(r@.to_multiset().contains(r@[k]));
                assert(rf.to_multiset().count(r@[k]) > 0);
                assert(rf.contains(r@[k]));
                let m = choose|m: int| 0 <= m < rf.len() && rf[m] == r@[k];
                assert(task_in_range(rf[m], start_date@, end_date@));
            }
        }
        r
    }

    /// Creates a task from the input and an already-generated id and
    /// creation timestamp: defaults applied, stored, the stored row
    /// returned. Refused when the priority is not one the store accepts or
    /// the id is taken.
    pub fn create_task_with_id(
        &mut self,
        input: CreateTaskInput,
        id: String,
        created_at: String,
    ) -> (r: Result<Task, String>)
        requires
            old(self).wf(),
        ensures
            final(self).wf(),
            final(self).goals@ == old(self).goals@,
            final(self).entries@ == old(self).entries@,
            !priority_ok(input.priority) ==> r is Err && r->Err_0@
                == "priority must be high, medium or low"@ && final(self).tasks@ == old(
                self,
            ).tasks@,
            priority_ok(input.priority) && has_task_id(old(self).tasks@, id@) ==> r is Err
                && r->Err_0@ == "id already exists"@ && final(self).tasks@ == old(self).tasks@,
            priority_ok(input.priority) && !has_task_id(old(self).tasks@, id@) ==> r is Ok && {
                &&& created_from(r->Ok_0, input)
                &&& (r->Ok_0).id == id
                &&& (r->Ok_0).created_at == created_at
                &&& final(self).tasks@ == old(self).tasks@.push(r->Ok_0)
            },
    {
        if let Some(p) = &input.priority {
            if !priority_valid_exec(p.as_str()) {
                return Err(invalid_priority_message());
            }
        }
        if self.find_task(id.as_str()).is_some() {
            return Err(crate::store::duplicate_id_message());
        }
        let duration = match input.duration_minutes {
            Some(d) => d,
            None => 30,
        };
        let priority = match input.priority {
            Some(p) => p,
            None => "medium".to_owned(),
        };
        let t = Task {
            id,
            title: input.title,
            description: input.description,
            scheduled_date: input.scheduled_date,
            scheduled_time: input.scheduled_time,
            duration_minutes: duration,
            priority,
            is_completed: false,
            reminder_minutes: input.reminder_minutes,
            created_at,
        };
        let stored = t.clone();
        self.tasks.push(stored);
        Ok(t)
    }

    /// Creates a task under a fresh random id with the current timestamp.
    /// Succeeds unless the priority is refused or the generated id happens
    /// to collide with a stored one — in particular, success is owed
    /// whenever no stored id even has a drawn id's 36-character length. On
    /// success the returned row is the pushed row, built from the input with
    /// the documented defaults.
    pub fn create_task(&mut self, input: CreateTaskInput) -> (r: Result<Task, String>)
        requires
            old(self).wf(),
        ensures
            final(self).wf(),
            final(self).goals@ == old(self).goals@,
            final(self).entries@ == old(self).entries@,
            !priority_ok(input.priority) ==> r is Err && r->Err_0@
                == "priority must be high, medium or low"@,
            priority_ok(input.priority) && r is Err ==> r->Err_0@ == "id already exists"@,
            priority_ok(input.priority) && crate::store::no_task_id_of_len(old(self).tasks@, 36)
                ==> r is Ok,
            r is Err ==> final(self).tasks@ == old(self).tasks@,
            r is Ok ==> {
                &&& created_from(r->Ok_0, input)
                &&& !has_task_id(old(self).tasks@, (r->Ok_0).id@)
                &&& final(self).tasks@ == old(self).tasks@.push(r->Ok_0)
            },
    {
        let id = crate::ids::new_uuid();
        proof {
            if crate::store::no_task_id_of_len(self.tasks@, 36) && has_task_id(
                self.tasks@,
                id@,
            ) {
                let i = choose|i: int| 0 <= i < self.tasks@.len() && self.tasks@[i].id@ == id@;
                assert(self.tasks@[i].id@.len() != 36);
            }
        }
        let created_at = crate::clock::now_timestamp();
        self.create_task_with_id(input, id, created_at)
    }

    /// Applies the present fields of the input to the stored row and returns
    /// the updated row. Refused when no field is present, when no row has
    /// the id, or when the new priority is not one the store accepts.
    pub fn update_task(&mut self, input: UpdateTaskInput) -> (r: Result<Task, String>)
        requires
            old(self).wf(),
        ensures
            final(self).wf(),
            final(self).goals@ == old(self).goals@,
            final(self).entries@ == old(self).entries@,
            r is Err ==> final(self).tasks@ == old(self).tasks@,
            no_update_fields(input) ==> r is Err && r->Err_0@ == "No fields to update"@,
            !no_update_fields(input) && !has_task_id(old(self).tasks@, input.id@) ==> r is Err
                && r->Err_0@ == "task not found"@,
            !no_update_fields(input) && has_task_id(old(self).tasks@, input.id@) && !priority_ok(
                input.priority,
            ) ==> r is Err && r->Err_0@ == "priority must be high, medium or low"@,
            !no_update_fields(input) && has_task_id(old(self).tasks@, input.id@) && priority_ok(
                input.priority,
            ) ==> r is Ok && task_updated(
                old(self).tasks@,
                final(self).tasks@,
                input.id@,
                r->Ok_0,
                input,
            ),
    {
        let no_fields = input.title.is_none() && input.description.is_none()
            && input.scheduled_date.is_none() && input.scheduled_time.is_none()
            && input.duration_minutes.is_none() && input.priority.is_none()
            && input.is_completed.is_none() && input.reminder_minutes.is_none();
        if no_fields {
            return Err(no_fields_message());
        }
        let idx = match self.find_task(input.id.as_str()) {
            Some(i) => i,
            None => {
                return Err(task_not_found_message());
            },
        };
        if let Some(p) = &input.priority {
            if !priority_valid_exec(p.as_str()) {
                return Err(invalid_priority_message());
            }
        }
        let ghost old_tasks = self.tasks@;
        let mut nt = self.tasks[idx].clone();
        let UpdateTaskInput {
            id: _,
            title,
            description,
            scheduled_date,
            scheduled_time,
            duration_minutes,
            priority,
            is_completed,
            reminder_minutes,
        } = input;
        if let Some(s) = title {
            nt.title = s;
        }
        if let Some(s) = description {
            nt.description = Some(s);
        }
        if let Some(s) = scheduled_date {
            nt.scheduled_date = s;
        }
        if let Some(s) = scheduled_time {
            nt.scheduled_time = Some(s);
        }
        if let Some(d) = duration_minutes {
            nt.duration_minutes = d;
        }
        if let Some(s) = priority {
            nt.priority = s;
        }
        if let Some(b) = is_completed {
            nt.is_completed = b;
        }
        if let Some(m) = reminder_minutes {
            nt.reminder_minutes = Some(m);
        }
        proof {
            assert(nt == apply_update(old_tasks[idx as int], input));
        }
        let stored = nt.clone();
        self.tasks[idx] = stored;
        proof {
            assert forall|p: int, q: int|
                0 <= p < q < self.tasks@.len() implies self.tasks@[p].id@ != self.tasks@[q].id@ by {
                assert(old_tasks[p].id@ != old_tasks[q].id@);
            }
            let i = idx as int;
            assert(0 <= i < old_tasks.len() && old_tasks[i].id@ == input.id@ && nt == apply_update(
                old_tasks[i],
                input,
            ) && self.tasks@ == old_tasks.update(i, nt));
            assert(task_updated(old_tasks, self.tasks@, input.id@, nt, input));
        }
        Ok(nt)
    }

    /// Removes the row with the id; removing an unknown id is a success
    /// that changes nothing.
    pub fn delete_task(&mut self, id: String) -> (r: Result<(), String>)
        requires
            old(self).wf(),
        ensures
            final(self).wf(),
            final(self).goals@ == old(self).goals@,
            final(self).entries@ == old(self).entries@,
            r is Ok,
            !has_task_id(old(self).tasks@, id@) ==> final(self).tasks@ == old(self).tasks@,
            has_task_id(old(self).tasks@, id@) ==> exists|i: int|
                {
                    &&& 0 <= i < old(self).tasks@.len()
                    &&& old(self).tasks@[i].id@ == id@
                    &&& final(self).tasks@ == old(self).tasks@.remove(i)
                },
    {
        let ghost old_tasks = self.tasks@;
        if let Some(i) = self.find_task(id.as_str()) {
            self.tasks.remove(i);
            proof {
                assert forall|p: int, q: int|
                    0 <= p < q < self.tasks@.len() implies self.tasks@[p].id@
                    != self.tasks@[q].id@ by {
                    let pp = if p < i { p } else { p + 1 };
                    let qq = if q < i { q } else { q + 1 };
                    assert(self.tasks@[p] == old_tasks[pp]);
                    assert(self.tasks@[q] == old_tasks[qq]);
                }
            }
        }
        Ok(())
    }

    /// Flips the completion mark of the row with the id, in one step against
    /// the store, and returns the updated row. Refused when no row has the
    /// id.
    pub fn toggle_task_completion(&mut self, id: String) -> (r: Result<Task, String>)
        requires
            old(self).wf(),
        ensures
            final(self).wf(),
            final(self).goals@ == old(self).goals@,
            final(self).entries@ == old(self).entries@,
            r is Err ==> final(self).tasks@ == old(self).tasks@,
            !has_task_id(old(self).tasks@, id@) ==> r is Err && r->Err_0@ == "task not found"@,
            has_task_id(old(self).tasks@, id@) ==> r is Ok && task_toggled_at(
                old(self).tasks@,
                final(self).tasks@,
                id@,
                r->Ok_0,
            ),
    {
        let ghost old_tasks = self.tasks@;
        let idx = match self.find_task(id.as_str()) {
            Some(i) => i,
            None => {
                return Err(task_not_found_message());
            },
        };
        let mut nt = self.tasks[idx].clone();
        nt.is_completed = !nt.is_completed;
        let stored = nt.clone();
        self.tasks[idx] = stored;
        proof {
            assert forall|p: int, q: int|
                0 <= p < q < self.tasks@.len() implies self.tasks@[p].id@ != self.tasks@[q].id@ by {
                assert(old_tasks[p].id@ != old_tasks[q].id@);
            }
            let i = idx as int;
            assert(0 <= i < old_tasks.len() && old_tasks[i].id@ == id@ && nt == toggled_task(
                old_tasks[i],
            ) && self.tasks@ == old_tasks.update(i, nt));
            assert(task_toggled_at(old_tasks, self.tasks@, id@, nt));
        }
        Ok(nt)
    }
}

} // verus!
