//! Laws that relate several operations, stated once and proved for all
//! inputs.
use vstd::prelude::*;

use crate::goals::toggled_goal;
use crate::journal::{entry_created_from, entry_upserted_in_place};
use crate::models::{DailyGoal, JournalEntry, Task, UpsertEntryInput};
use crate::store::{entries_unique, has_entry_date};
use crate::tasks::toggled_task;

verus! {

/// Toggling a task's completion is its own inverse: flipping twice restores
/// the task.
pub proof fn lemma_task_toggle_involutive(t: Task)
    ensures
        toggled_task(toggled_task(t)) == t,
{
}

/// Toggling twice through the store restores the stored tasks: the row the
/// first toggle wrote, toggled again, is the original row, and writing it
/// back yields the original sequence.
pub proof fn lemma_task_toggle_twice_restores(pre: Seq<Task>, i: int)
    requires
        0 <= i < pre.len(),
    ensures
        pre.update(i, toggled_task(pre[i])).update(i, toggled_task(toggled_task(pre[i]))) == pre,
{
    assert(toggled_task(toggled_task(pre[i])) == pre[i]);
    assert(pre.update(i, toggled_task(pre[i])).update(i, pre[i]) =~= pre);
}

/// Toggling a goal's completion is its own inverse.
pub proof fn lemma_goal_toggle_involutive(g: DailyGoal)
    ensures
        toggled_goal(toggled_goal(g)) == g,
{
}

/// Toggling twice through the store restores the stored goals.
pub proof fn lemma_goal_toggle_twice_restores(pre: Seq<DailyGoal>, i: int)
    requires
        0 <= i < pre.len(),
    ensures
        pre.update(i, toggled_goal(pre[i])).update(i, toggled_goal(toggled_goal(pre[i]))) == pre,
{
    assert(toggled_goal(toggled_goal(pre[i])) == pre[i]);
    assert(pre.update(i, toggled_goal(pre[i])).update(i, pre[i]) =~= pre);
}

/// Either outcome of a journal upsert leaves an entry for the input's date,
/// so a second upsert for that date replaces in place: together with the
/// preserved uniqueness invariant, no sequence of upserts ever gives a date
/// two rows.
pub proof fn lemma_upsert_leaves_entry_for_date(
    pre: Seq<JournalEntry>,
    post: Seq<JournalEntry>,
    input: UpsertEntryInput,
    e: JournalEntry,
)
    requires
        entry_upserted_in_place(pre, post, input, e) || (entry_created_from(e, input) && post
            == pre.push(e)),
    ensures
        has_entry_date(post, input.entry_date@),
{
    if entry_upserted_in_place(pre, post, input, e) {
        let i = choose|i: int|
            0 <= i < pre.len() && (#[trigger] pre[i]).entry_date@ == input.entry_date@ && e
                == crate::journal::with_content(pre[i], input.content, input.mood) && post
                == pre.update(i, e);
        assert(post[i].entry_date@ == input.entry_date@);
    } else {
        assert(post[post.len() - 1].entry_date@ == input.entry_date@);
    }
}

/// An entry sequence that meets the uniqueness invariant never holds two
/// rows for one date.
pub proof fn lemma_one_entry_per_date(s: Seq<JournalEntry>, i: int, j: int)
    requires
        entries_unique(s),
        0 <= i < s.len(),
        0 <= j < s.len(),
        s[i].entry_date@ == s[j].entry_date@,
    ensures
        i == j,
{
}

} // verus!
