//! The three entities the store owns, and the plain inputs the command
//! surface takes. Dates are ISO calendar-date strings and times 24-hour
//! "HH:MM" strings; their lexicographic order is the chronological order.
use vstd::prelude::*;

verus! {

/// A scheduled task. `reminder_minutes` is consumed (set to `None`) when its
/// reminder fires, so a reminder fires at most once per stored value.
#[derive(Debug)]
#[verifier::ext_equal]
pub struct Task {
    pub id: String,
    pub title: String,
    pub description: Option<String>,
    pub scheduled_date: String,
    pub scheduled_time: Option<String>,
    pub duration_minutes: i32,
    pub priority: String,
    pub is_completed: bool,
    pub reminder_minutes: Option<i32>,
    pub created_at: String,
}

impl Clone for Task {
    fn clone(&self) -> (r: Self)
        ensures
            r == *self,
    {
        Task {
            id: self.id.clone(),
            title: self.title.clone(),
            description: clone_opt_string(&self.description),
            scheduled_date: self.scheduled_date.clone(),
            scheduled_time: clone_opt_string(&self.scheduled_time),
            duration_minutes: self.duration_minutes,
            priority: self.priority.clone(),
            is_completed: self.is_completed,
            reminder_minutes: self.reminder_minutes,
            created_at: self.created_at.clone(),
        }
    }
}

/// Input for creating a task; optional fields fall back to the documented
/// defaults (`duration_minutes` 30, `priority` "medium").
pub struct CreateTaskInput {
    pub title: String,
    pub description: Option<String>,
    pub scheduled_date: String,
    pub scheduled_time: Option<String>,
    pub duration_minutes: Option<i32>,
    pub priority: Option<String>,
    pub reminder_minutes: Option<i32>,
}

/// A partial update: only the fields that are present are modified. A `Some`
/// in `description`, `scheduled_time` or `reminder_minutes` sets the stored
/// optional field; this surface cannot clear one back to `None`.
pub struct UpdateTaskInput {
    pub id: String,
    pub title: Option<String>,
    pub description: Option<String>,
    pub scheduled_date: Option<String>,
    pub scheduled_time: Option<String>,
    pub duration_minutes: Option<i32>,
    pub priority: Option<String>,
    pub is_completed: Option<bool>,
    pub reminder_minutes: Option<i32>,
}

/// A goal for one day; `(goal_date, goal_order)` is unique in a store.
#[derive(Debug)]
#[verifier::ext_equal]
pub struct DailyGoal {
    pub id: String,
    pub goal_date: String,
    pub goal_text: String,
    pub goal_order: i32,
    pub is_completed: bool,
}

impl Clone for DailyGoal {
    fn clone(&self) -> (r: Self)
        ensures
            r == *self,
    {
        DailyGoal {
            id: self.id.clone(),
            goal_date: self.goal_date.clone(),
            goal_text: self.goal_text.clone(),
            goal_order: self.goal_order,
            is_completed: self.is_completed,
        }
    }
}

/// Input for the goal upsert, keyed on `(goal_date, goal_order)`; callers
/// never supply an id.
pub struct UpsertGoalInput {
    pub goal_date: String,
    pub goal_text: String,
    pub goal_order: i32,
}

/// A journal entry; `entry_date` is unique in a store.
#[derive(Debug)]
#[verifier::ext_equal]
pub struct JournalEntry {
    pub id: String,
    pub entry_date: String,
    pub content: String,
    pub mood: Option<String>,
}

impl Clone for JournalEntry {
    fn clone(&self) -> (r: Self)
        ensures
            r == *self,
    {
        JournalEntry {
            id: self.id.clone(),
            entry_date: self.entry_date.clone(),
            content: self.content.clone(),
            mood: clone_opt_string(&self.mood),
        }
    }
}

/// Input for the journal upsert, keyed on `entry_date`.
pub struct UpsertEntryInput {
    pub entry_date: String,
    pub content: String,
    pub mood: Option<String>,
}

fn clone_opt_string(s: &Option<String>) -> (r: Option<String>)
    ensures
        r == *s,
{
    match s {
        Some(v) => Some(v.clone()),
        None => None,
    }
}

} // verus!
