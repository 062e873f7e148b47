//! Daily-goal operations: the per-date listing ordered by position, the
//! upsert keyed on `(goal_date, goal_order)`, the completion toggle and the
//! idempotent delete.
use vstd::prelude::*;

use crate::models::{DailyGoal, UpsertGoalInput};
use crate::store::{has_goal_id, has_goal_slot, Store};
use crate::strings::str_eq;

verus! {

/// The same goal with its completion mark flipped.
pub open spec fn toggled_goal(g: DailyGoal) -> DailyGoal {
    DailyGoal {
        id: g.id,
        goal_date: g.goal_date,
        goal_text: g.goal_text,
        goal_order: g.goal_order,
        is_completed: !g.is_completed,
    }
}

/// The same goal with its text replaced.
pub open spec fn with_text(g: DailyGoal, text: String) -> DailyGoal {
    DailyGoal {
        id: g.id,
        goal_date: g.goal_date,
        goal_text: text,
        goal_order: g.goal_order,
        is_completed: g.is_completed,
    }
}

/// How a goal created by the upsert relates to its input: fields copied, not
/// completed.
pub open spec fn goal_created_from(g: DailyGoal, input: UpsertGoalInput) -> bool {
    &&& g.goal_date == input.goal_date
    &&& g.goal_text == input.goal_text
    &&& g.goal_order == input.goal_order
    &&& g.is_completed == false
}

/// True when `post` is `pre` with the goal in the input's `(date, order)`
/// slot replaced by `g`: that goal, its id and completion kept, holding the
/// input's text.
pub open spec fn goal_upserted_in_place(
    pre: Seq<DailyGoal>,
    post: Seq<DailyGoal>,
    input: UpsertGoalInput,
    g: DailyGoal,
) -> bool {
    exists|i: int|
        0 <= i < pre.len() && (#[trigger] pre[i]).goal_date@ == input.goal_date@
            && pre[i].goal_order == input.goal_order && g == with_text(pre[i], input.goal_text)
            && post == pre.update(i, g)
}

/// True when `post` is `pre` with the goal holding `id` replaced by `t`,
/// that goal with its completion mark flipped.
pub open spec fn goal_toggled_at(
    pre: Seq<DailyGoal>,
    post: Seq<DailyGoal>,
    id: Seq<char>,
    t: DailyGoal,
) -> bool {
    exists|i: int|
        0 <= i < pre.len() && (#[trigger] pre[i]).id@ == id && t == toggled_goal(pre[i]) && post
            == pre.update(i, t)
}

/// True when the sequence is ordered by goal position.
pub open spec fn goals_sorted(s: Seq<DailyGoal>) -> bool {
    forall|i: int, j: int| 0 <= i < j < s.len() ==> s[i].goal_order <= s[j].goal_order
}

/// The subsequence of goals dated `date`, in stored order.
pub open spec fn date_filter(s: Seq<DailyGoal>, date: Seq<char>) -> Seq<DailyGoal>
    decreases s.len(),
{
    if s.len() == 0 {
        Seq::empty()
    } else {
        let rest = date_filter(s.drop_last(), date);
        if s.last().goal_date@ == date {
            rest.push(s.last())
        } else {
            rest
        }
    }
}

/// Every listed goal is dated `date` and comes from the stored sequence.
pub proof fn lemma_date_filter_members(s: Seq<DailyGoal>, date: Seq<char>)
    ensures
        forall|k: int|
            0 <= k < date_filter(s, date).len() ==> (#[trigger] date_filter(s, date)[k]).goal_date@
                == date && s.contains(date_filter(s, date)[k]),
    decreases s.len(),
{
    if s.len() != 0 {
        lemma_date_filter_members(s.drop_last(), date);
        let rest = date_filter(s.drop_last(), date);
        let df = date_filter(s, date);
        assert forall|k: int|
            0 <= k < df.len() implies (#[trigger] df[k]).goal_date@ == date && s.contains(
            df[k],
        ) by {
            if s.last().goal_date@ == date && k == df.len() - 1 {
                assert(df[k] == s.last());
                assert(s[s.len() - 1] == s.last());
                assert(s.contains(s.last()));
            } else {
                assert(df[k] == rest[k]);
                assert(s.drop_last().contains(rest[k]));
                let m = choose|m: int|
                    0 <= m < s.drop_last().len() && s.drop_last()[m] == rest[k];
                assert(s[m] == rest[k]);
                assert(s.contains(df[k]));
            }
        }
    }
}

fn goal_not_found_message() -> (r: String)
    ensures
        r@ == "goal not found"@,
{
    "goal not found".to_owned()
}

/// Where the new goal keeps the sequence ordered by position.
fn goal_insert_pos(out: &Vec<DailyGoal>, g: &DailyGoal) -> (j: usize)
    requires
        goals_sorted(out@),
    ensures
        j <= out@.len(),
        forall|k: int| 0 <= k < j ==> out@[k].goal_order <= g.goal_order,
        j < out@.len() ==> !(out@[j as int].goal_order <= g.goal_order),
{
    let n = out.len();
    let mut j: usize = 0;
    while j < n
        invariant
            j <= n,
            n == out@.len(),
            forall|k: int| 0 <= k < j ==> out@[k].goal_order <= g.goal_order,
        decreases n - j,
    {
        if !(out[j].goal_order <= g.goal_order) {
            return j;
        }
        j += 1;
    }
    j
}

/// Sorts by goal position; the result holds exactly the given rows.
fn sort_goals(v: Vec<DailyGoal>) -> (r: Vec<DailyGoal>)
    ensures
        goals_sorted(r@),
        r@.to_multiset() == v@.to_multiset(),
{
    broadcast use vstd::seq_lib::group_to_multiset_ensures;

    let n = v.len();
    let mut out: Vec<DailyGoal> = Vec::new();
    let mut i: usize = 0;
    proof {
        assert(v@.take(0) =~= Seq::<DailyGoal>::empty());
        assert(out@.to_multiset() =~= v@.take(0).to_multiset());
    }
    while i < n
        invariant
            i <= n,
            n == v@.len(),
            goals_sorted(out@),
            out@.to_multiset() == v@.take(i as int).to_multiset(),
        decreases n - i,
    {
        let g = v[i].clone();
        let j = goal_insert_pos(&out, &g);
        let ghost pre = out@;
        out.insert(j, g);
        proof {
            let post = out@;
            assert forall|p: int, q: int| 0 <= p < q < post.len() implies post[p].goal_order
                <= post[q].goal_order by {
                assert(post[p] == (if p < j { pre[p] } else if p == j { g } else { pre[p - 1] }));
                assert(post[q] == (if q < j { pre[q] } else if q == j { g } else { pre[q - 1] }));
            }
            broadcast use vstd::seq_lib::to_multiset_insert;

            assert(post.to_multiset() == pre.to_multiset().insert(g));
            v@.lemma_take_succ_push(i as int);
            assert(v@.take(i as int + 1) == v@.take(i as int).push(v@[i as int]));
            vstd::seq_lib::to_multiset_build::<DailyGoal>(v@.take(i as int), v@[i as int]);
        }
        i += 1;
    }
    proof {
        assert(v@.take(n as int) =~= v@);
    }
    out
}

impl Store {
    /// All goals for the date, ordered by `goal_order` ascending. A pure
    /// read.
    pub fn get_goals_for_date(&self, date: String) -> (r: Vec<DailyGoal>)
        ensures
            goals_sorted(r@),
            r@.to_multiset() == date_filter(self.goals@, date@).to_multiset(),
            forall|k: int|
                0 <= k < r@.len() ==> (#[trigger] r@[k]).goal_date@ == date@
                    && self.goals@.contains(r@[k]),
    {
        broadcast use vstd::seq_lib::group_to_multiset_ensures;

        let n = self.goals.len();
        let mut picked: Vec<DailyGoal> = Vec::new();
        let mut i: usize = 0;
        proof {
            assert(self.goals@.take(0) =~= Seq::<DailyGoal>::empty());
        }
        while i < n
            invariant
                i <= n,
                n == self.goals@.len(),
                picked@ == date_filter(self.goals@.take(i as int), date@),
            decreases n - i,
        {
            let g = &self.goals[i];
            proof {
                let pre = self.goals@.take(i as int);
                let post = self.goals@.take(i as int + 1);
                assert(post.drop_last() =~= pre);
                assert(post.last() == self.goals@[i as int]);
            }
            if str_eq(g.goal_date.as_str(), date.as_str()) {
                picked.push(g.clone());
            }
            i += 1;
        }
        proof {
            assert(self.goals@.take(n as int) =~= self.goals@);
        }
        let r = sort_goals(picked);
        proof {
            lemma_date_filter_members(self.goals@, date@);
            let df = date_filter(self.goals@, date@);
            assert forall|k: int|
                0 <= k < r@.len() implies (#[trigger] r@[k]).goal_date@ == date@
                && self.goals@.contains(r@[k]) by {
                assert(r@.to_multiset().contains(r@[k]));
                assert(df.to_multiset().count(r@[k]) > 0);
                assert(df.contains(r@[k]));
                let m = choose|m: int| 0 <= m < df.len() && df[m] == r@[k];
                assert(df[m].goal_date@ == date@);
            }
        }
        r
    }

    /// The upsert, with an already-generated id for the created case: when a
    /// goal occupies the input's `(goal_date, goal_order)` slot its text is
    /// replaced in place, its id and completion kept; otherwise a new,
    /// uncompleted goal is stored in that slot under the given id. Refused
    /// only when a new row is needed and the id is taken.
    pub fn upsert_goal_with_id(&mut self, input: UpsertGoalInput, id: String) -> (r: Result<
        DailyGoal,
        String,
    >)
        requires
            old(self).wf(),
        ensures
            final(self).wf(),
            final(self).tasks@ == old(self).tasks@,
            final(self).entries@ == old(self).entries@,
            has_goal_slot(old(self).goals@, input.goal_date@, input.goal_order) ==> r is Ok
                && goal_upserted_in_place(old(self).goals@, final(self).goals@, input, r->Ok_0),
            !has_goal_slot(old(self).goals@, input.goal_date@, input.goal_order) && has_goal_id(
                old(self).goals@,
                id@,
            ) ==> r is Err && r->Err_0@ == "id already exists"@ && final(self).goals@ == old(
                self,
            ).goals@,
            !has_goal_slot(old(self).goals@, input.goal_date@, input.goal_order) && !has_goal_id(
                old(self).goals@,
                id@,
            ) ==> r is Ok && {
                &&& goal_created_from(r->Ok_0, input)
                &&& (r->Ok_0).id == id
                &&& final(self).goals@ == old(self).goals@.push(r->Ok_0)
            },
    {
        let ghost old_goals = self.goals@;
        if let Some(idx) = self.find_goal_slot(input.goal_date.as_str(), input.goal_order) {
            let mut ng = self.goals[idx].clone();
            ng.goal_text = input.goal_text;
            let stored = ng.clone();
            self.goals[idx] = stored;
            proof {
                assert forall|p: int, q: int|
                    0 <= p < q < self.goals@.len() implies self.goals@[p].id@
                    != self.goals@[q].id@ && !(self.goals@[p].goal_date@ == self.goals@[q].goal_date@
                    && self.goals@[p].goal_order == self.goals@[q].goal_order) by {
                    assert(old_goals[p].id@ != old_goals[q].id@);
                    assert(!(old_goals[p].goal_date@ == old_goals[q].goal_date@
                        && old_goals[p].goal_order == old_goals[q].goal_order));
                }
                let i = idx as int;
                assert(0 <= i < old_goals.len() && old_goals[i].goal_date@ == input.goal_date@
                    && old_goals[i].goal_order == input.goal_order && ng == with_text(
                    old_goals[i],
                    input.goal_text,
                ) && self.goals@ == old_goals.update(i, ng));
                assert(goal_upserted_in_place(old_goals, self.goals@, input, ng));
            }
            return Ok(ng);
        }
        if self.find_goal(id.as_str()).is_some() {
            return Err(crate::store::duplicate_id_message());
        }
        let g = DailyGoal {
            id,
            goal_date: input.goal_date,
            goal_text: input.goal_text,
            goal_order: input.goal_order,
            is_completed: false,
        };
        let stored = g.clone();
        self.goals.push(stored);
        Ok(g)
    }

    /// The upsert under a fresh random id: replaces the text of the goal in
    /// the input's slot, or creates the slot's first goal. Succeeds unless a
    /// new row is needed and the generated id happens to collide — in
    /// particular, success is owed whenever no stored id even has a drawn
    /// id's 36-character length.
    pub fn upsert_goal(&mut self, input: UpsertGoalInput) -> (r: Result<DailyGoal, String>)
        requires
            old(self).wf(),
        ensures
            final(self).wf(),
            final(self).tasks@ == old(self).tasks@,
            final(self).entries@ == old(self).entries@,
            r is Err ==> final(self).goals@ == old(self).goals@,
            crate::store::no_goal_id_of_len(old(self).goals@, 36) ==> r is Ok,
            has_goal_slot(old(self).goals@, input.goal_date@, input.goal_order) ==> r is Ok
                && goal_upserted_in_place(old(self).goals@, final(self).goals@, input, r->Ok_0),
            !has_goal_slot(old(self).goals@, input.goal_date@, input.goal_order) && r is Ok ==> {
                &&& goal_created_from(r->Ok_0, input)
                &&& !has_goal_id(old(self).goals@, (r->Ok_0).id@)
                &&& final(self).goals@ == old(self).goals@.push(r->Ok_0)
            },
    {
        let id = crate::ids::new_uuid();
        proof {
            if crate::store::no_goal_id_of_len(self.goals@, 36) && has_goal_id(
                self.goals@,
                id@,
            ) {
                let i = choose|i: int| 0 <= i < self.goals@.len() && self.goals@[i].id@ == id@;
                assert(self.goals@[i].id@.len() != 36);
            }
        }
        self.upsert_goal_with_id(input, id)
    }

    /// Flips the completion mark of the goal with the id and returns the
    /// updated row. Refused when no goal has the id.
    pub fn toggle_goal_completion(&mut self, id: String) -> (r: Result<DailyGoal, String>)
        requires
            old(self).wf(),
        ensures
            final(self).wf(),
            final(self).tasks@ == old(self).tasks@,
            final(self).entries@ == old(self).entries@,
            r is Err ==> final(self).goals@ == old(self).goals@,
            !has_goal_id(old(self).goals@, id@) ==> r is Err && r->Err_0@ == "goal not found"@,
            has_goal_id(old(self).goals@, id@) ==> r is Ok && goal_toggled_at(
                old(self).goals@,
                final(self).goals@,
                id@,
                r->Ok_0,
            ),
    {
        let ghost old_goals = self.goals@;
        let idx = match self.find_goal(id.as_str()) {
            Some(i) => i,
            None => {
                return Err(goal_not_found_message());
            },
        };
        let mut ng = self.goals[idx].clone();
        ng.is_completed = !ng.is_completed;
        let stored = ng.clone();
        self.goals[idx] = stored;
        proof {
            assert forall|p: int, q: int|
                0 <= p < q < self.goals@.len() implies self.goals@[p].id@ != self.goals@[q].id@ && !(
            self.goals@[p].goal_date@ == self.goals@[q].goal_date@ && self.goals@[p].goal_order
                == self.goals@[q].goal_order) by {
                assert(old_goals[p].id@ != old_goals[q].id@);
                assert(!(old_goals[p].goal_date@ == old_goals[q].goal_date@
                    && old_goals[p].goal_order == old_goals[q].goal_order));
            }
            let i = idx as int;
            assert(0 <= i < old_goals.len() && old_goals[i].id@ == id@ && ng == toggled_goal(
                old_goals[i],
            ) && self.goals@ == old_goals.update(i, ng));
            assert(goal_toggled_at(old_goals, self.goals@, id@, ng));
        }
        Ok(ng)
    }

    /// Removes the goal with the id; removing an unknown id is a success
    /// that changes nothing.
    pub fn delete_goal(&mut self, id: String) -> (r: Result<(), String>)
        requires
            old(self).wf(),
        ensures
            final(self).wf(),
            final(self).tasks@ == old(self).tasks@,
            final(self).entries@ == old(self).entries@,
            r is Ok,
            !has_goal_id(old(self).goals@, id@) ==> final(self).goals@ == old(self).goals@,
            has_goal_id(old(self).goals@, id@) ==> exists|i: int|
                {
                    &&& 0 <= i < old(self).goals@.len()
                    &&& old(self).goals@[i].id@ == id@
                    &&& final(self).goals@ == old(self).goals@.remove(i)
                },
    {
        let ghost old_goals = self.goals@;
        if let Some(i) = self.find_goal(id.as_str()) {
            self.goals.remove(i);
            proof {
                assert forall|p: int, q: int|
                    0 <= p < q < self.goals@.len() implies self.goals@[p].id@
                    != self.goals@[q].id@ && !(self.goals@[p].goal_date@
                    == self.goals@[q].goal_date@ && self.goals@[p].goal_order
                    == self.goals@[q].goal_order) by {
                    let pp = if p < i { p } else { p + 1 };
                    let qq = if q < i { q } else { q + 1 };
                    assert(self.goals@[p] == old_goals[pp]);
                    assert(self.goals@[q] == old_goals[qq]);
                }
            }
        }
        Ok(())
    }
}

} // verus!
