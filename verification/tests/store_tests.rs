use planner_core::models::{
    CreateTaskInput, UpdateTaskInput, UpsertEntryInput, UpsertGoalInput,
};
use planner_core::store::Store;

fn task_input(title: &str, date: &str) -> CreateTaskInput {
    CreateTaskInput {
        title: title.to_string(),
        description: None,
        scheduled_date: date.to_string(),
        scheduled_time: None,
        duration_minutes: None,
        priority: None,
        reminder_minutes: None,
    }
}

fn empty_update(id: &str) -> UpdateTaskInput {
    UpdateTaskInput {
        id: id.to_string(),
        title: None,
        description: None,
        scheduled_date: None,
        scheduled_time: None,
        duration_minutes: None,
        priority: None,
        is_completed: None,
        reminder_minutes: None,
    }
}

#[test]
fn create_applies_defaults() {
    let mut store = Store::new();
    let t = store.create_task(task_input("dentist", "2024-03-01")).unwrap();
    assert_eq!(t.duration_minutes, 30);
    assert_eq!(t.priority, "medium");
    assert!(!t.is_completed);
    assert_eq!(t.title, "dentist");
    assert_eq!(t.scheduled_date, "2024-03-01");
    assert!(t.description.is_none());
    assert!(t.reminder_minutes.is_none());
}

#[test]
fn create_keeps_explicit_fields() {
    let mut store = Store::new();
    let mut input = task_input("standup", "2024-03-02");
    input.description = Some("daily sync".to_string());
    input.scheduled_time = Some("09:30".to_string());
    input.duration_minutes = Some(15);
    input.priority = Some("high".to_string());
    input.reminder_minutes = Some(5);
    let t = store.create_task(input).unwrap();
    assert_eq!(t.description.as_deref(), Some("daily sync"));
    assert_eq!(t.scheduled_time.as_deref(), Some("09:30"));
    assert_eq!(t.duration_minutes, 15);
    assert_eq!(t.priority, "high");
    assert_eq!(t.reminder_minutes, Some(5));
}

#[test]
fn create_generates_fresh_ids() {
    let mut store = Store::new();
    let a = store.create_task(task_input("a", "2024-01-01")).unwrap();
    let b = store.create_task(task_input("b", "2024-01-01")).unwrap();
    assert_ne!(a.id, b.id);
    assert_eq!(a.id.len(), 36);
    assert_eq!(b.id.len(), 36);
}

#[test]
fn create_rejects_unknown_priority() {
    let mut store = Store::new();
    let mut input = task_input("x", "2024-01-01");
    input.priority = Some("urgent".to_string());
    assert!(store.create_task(input).is_err());
    assert_eq!(store.tasks.len(), 0);
}

#[test]
fn update_changes_only_present_fields() {
    let mut store = Store::new();
    let mut input = task_input("draft", "2024-05-05");
    input.scheduled_time = Some("10:00".to_string());
    let t = store.create_task(input).unwrap();
    let mut u = empty_update(&t.id);
    u.title = Some("final".to_string());
    u.duration_minutes = Some(45);
    let t2 = store.update_task(u).unwrap();
    assert_eq!(t2.id, t.id);
    assert_eq!(t2.title, "final");
    assert_eq!(t2.duration_minutes, 45);
    assert_eq!(t2.scheduled_date, "2024-05-05");
    assert_eq!(t2.scheduled_time.as_deref(), Some("10:00"));
    assert_eq!(t2.priority, "medium");
    assert_eq!(t2.created_at, t.created_at);
}

#[test]
fn update_without_fields_is_refused() {
    let mut store = Store::new();
    let t = store.create_task(task_input("a", "2024-01-01")).unwrap();
    let e = store.update_task(empty_update(&t.id)).unwrap_err();
    assert_eq!(e, "No fields to update");
}

#[test]
fn update_unknown_id_is_an_error() {
    let mut store = Store::new();
    store.create_task(task_input("a", "2024-01-01")).unwrap();
    let mut u = empty_update("no-such-id");
    u.title = Some("x".to_string());
    assert_eq!(store.update_task(u).unwrap_err(), "task not found");
}

#[test]
fn update_rejects_unknown_priority() {
    let mut store = Store::new();
    let t = store.create_task(task_input("a", "2024-01-01")).unwrap();
    let mut u = empty_update(&t.id);
    u.priority = Some("asap".to_string());
    assert_eq!(
        store.update_task(u).unwrap_err(),
        "priority must be high, medium or low"
    );
    assert_eq!(store.tasks[0].priority, "medium");
}

#[test]
fn delete_unknown_task_is_a_quiet_success() {
    let mut store = Store::new();
    store.create_task(task_input("keep", "2024-01-01")).unwrap();
    assert!(store.delete_task("no-such-id".to_string()).is_ok());
    assert_eq!(store.tasks.len(), 1);
}

#[test]
fn delete_removes_the_task() {
    let mut store = Store::new();
    let t = store.create_task(task_input("gone", "2024-01-01")).unwrap();
    assert!(store.delete_task(t.id.clone()).is_ok());
    assert_eq!(store.tasks.len(), 0);
    assert!(store.delete_task(t.id).is_ok());
}

#[test]
fn toggle_task_twice_restores_completion() {
    let mut store = Store::new();
    let t = store.create_task(task_input("flip", "2024-01-01")).unwrap();
    let once = store.toggle_task_completion(t.id.clone()).unwrap();
    assert!(once.is_completed);
    let twice = store.toggle_task_completion(t.id.clone()).unwrap();
    assert!(!twice.is_completed);
    assert_eq!(twice.title, t.title);
}

#[test]
fn toggle_unknown_task_is_an_error() {
    let mut store = Store::new();
    assert_eq!(
        store.toggle_task_completion("nobody".to_string()).unwrap_err(),
        "task not found"
    );
    assert_eq!(
        store.toggle_goal_completion("nobody".to_string()).unwrap_err(),
        "goal not found"
    );
}

#[test]
fn range_listing_sorts_and_filters() {
    let mut store = Store::new();
    let mut early = task_input("early", "2024-02-01");
    early.scheduled_time = Some("08:00".to_string());
    let mut late = task_input("late", "2024-02-01");
    late.scheduled_time = Some("19:30".to_string());
    let untimed = task_input("untimed", "2024-02-01");
    let before = task_input("before", "2024-01-15");
    let after = task_input("after", "2024-03-01");
    store.create_task(late).unwrap();
    store.create_task(before).unwrap();
    store.create_task(untimed).unwrap();
    store.create_task(after).unwrap();
    store.create_task(early).unwrap();

    let listed = store.get_tasks_for_date_range("2024-01-20".to_string(), "2024-02-15".to_string());
    let titles: Vec<&str> = listed.iter().map(|t| t.title.as_str()).collect();
    assert_eq!(titles, vec!["untimed", "early", "late"]);
}

#[test]
fn range_listing_orders_dates_before_times() {
    let mut store = Store::new();
    let mut d2 = task_input("second day", "2024-02-02");
    d2.scheduled_time = Some("01:00".to_string());
    let mut d1 = task_input("first day", "2024-02-01");
    d1.scheduled_time = Some("23:00".to_string());
    store.create_task(d2).unwrap();
    store.create_task(d1).unwrap();
    let listed = store.get_tasks_for_date_range("2024-02-01".to_string(), "2024-02-02".to_string());
    assert_eq!(listed[0].title, "first day");
    assert_eq!(listed[1].title, "second day");
}

#[test]
fn upsert_goal_replaces_text_in_place() {
    let mut store = Store::new();
    let first = store
        .upsert_goal(UpsertGoalInput {
            goal_date: "2024-02-01".to_string(),
            goal_text: "run".to_string(),
            goal_order: 1,
        })
        .unwrap();
    let second = store
        .upsert_goal(UpsertGoalInput {
            goal_date: "2024-02-01".to_string(),
            goal_text: "run far".to_string(),
            goal_order: 1,
        })
        .unwrap();
    assert_eq!(second.id, first.id);
    assert_eq!(second.goal_text, "run far");
    assert_eq!(second.goal_order, 1);
    assert_eq!(store.goals.len(), 1);
}

#[test]
fn upsert_goal_new_slot_creates_new_id() {
    let mut store = Store::new();
    let first = store
        .upsert_goal(UpsertGoalInput {
            goal_date: "2024-02-01".to_string(),
            goal_text: "run".to_string(),
            goal_order: 1,
        })
        .unwrap();
    let other = store
        .upsert_goal(UpsertGoalInput {
            goal_date: "2024-02-01".to_string(),
            goal_text: "read".to_string(),
            goal_order: 2,
        })
        .unwrap();
    assert_ne!(other.id, first.id);
    assert!(!other.is_completed);
    assert_eq!(store.goals.len(), 2);
}

#[test]
fn goal_listing_orders_by_position() {
    let mut store = Store::new();
    for (order, text) in [(3, "third"), (1, "first"), (2, "second")] {
        store
            .upsert_goal(UpsertGoalInput {
                goal_date: "2024-02-01".to_string(),
                goal_text: text.to_string(),
                goal_order: order,
            })
            .unwrap();
    }
    store
        .upsert_goal(UpsertGoalInput {
            goal_date: "2024-09-09".to_string(),
            goal_text: "elsewhere".to_string(),
            goal_order: 0,
        })
        .unwrap();
    let listed = store.get_goals_for_date("2024-02-01".to_string());
    let texts: Vec<&str> = listed.iter().map(|g| g.goal_text.as_str()).collect();
    assert_eq!(texts, vec!["first", "second", "third"]);
}

#[test]
fn toggle_goal_twice_restores_completion() {
    let mut store = Store::new();
    let g = store
        .upsert_goal(UpsertGoalInput {
            goal_date: "2024-02-01".to_string(),
            goal_text: "swim".to_string(),
            goal_order: 1,
        })
        .unwrap();
    assert!(store.toggle_goal_completion(g.id.clone()).unwrap().is_completed);
    assert!(!store.toggle_goal_completion(g.id).unwrap().is_completed);
}

#[test]
fn delete_unknown_goal_is_a_quiet_success() {
    let mut store = Store::new();
    assert!(store.delete_goal("missing".to_string()).is_ok());
}

#[test]
fn journal_upsert_replaces_content_and_mood() {
    let mut store = Store::new();
    let first = store
        .upsert_entry(UpsertEntryInput {
            entry_date: "2024-02-01".to_string(),
            content: "slow day".to_string(),
            mood: Some("tired".to_string()),
        })
        .unwrap();
    let second = store
        .upsert_entry(UpsertEntryInput {
            entry_date: "2024-02-01".to_string(),
            content: "better evening".to_string(),
            mood: None,
        })
        .unwrap();
    assert_eq!(second.id, first.id);
    assert_eq!(second.content, "better evening");
    assert!(second.mood.is_none());
    assert_eq!(store.entries.len(), 1);
}

#[test]
fn journal_upsert_creates_then_finds() {
    let mut store = Store::new();
    assert!(store.get_entry_for_date("2024-02-01".to_string()).is_none());
    let e = store
        .upsert_entry(UpsertEntryInput {
            entry_date: "2024-02-01".to_string(),
            content: "hello".to_string(),
            mood: None,
        })
        .unwrap();
    let found = store.get_entry_for_date("2024-02-01".to_string()).unwrap();
    assert_eq!(found.id, e.id);
    assert_eq!(found.content, "hello");
    assert!(store.get_entry_for_date("2024-02-02".to_string()).is_none());
}

#[test]
fn delete_unknown_entry_is_a_quiet_success() {
    let mut store = Store::new();
    let e = store
        .upsert_entry(UpsertEntryInput {
            entry_date: "2024-02-01".to_string(),
            content: "x".to_string(),
            mood: None,
        })
        .unwrap();
    assert!(store.delete_entry("missing".to_string()).is_ok());
    assert_eq!(store.entries.len(), 1);
    assert!(store.delete_entry(e.id).is_ok());
    assert_eq!(store.entries.len(), 0);
}

#[test]
fn loading_rejects_duplicates() {
    let mut store = Store::new();
    let t = store.create_task(task_input("a", "2024-01-01")).unwrap();
    assert_eq!(store.load_task(t.clone()).unwrap_err(), "id already exists");
    let g = store
        .upsert_goal(UpsertGoalInput {
            goal_date: "2024-01-01".to_string(),
            goal_text: "g".to_string(),
            goal_order: 0,
        })
        .unwrap();
    assert_eq!(store.load_goal(g.clone()).unwrap_err(), "id already exists");
    let mut slot_taken = g.clone();
    slot_taken.id = "a-fresh-id".to_string();
    assert_eq!(
        store.load_goal(slot_taken).unwrap_err(),
        "a goal already occupies this date and order"
    );
    let e = store
        .upsert_entry(UpsertEntryInput {
            entry_date: "2024-01-01".to_string(),
            content: "c".to_string(),
            mood: None,
        })
        .unwrap();
    assert_eq!(store.load_entry(e.clone()).unwrap_err(), "id already exists");
    let mut date_taken = e.clone();
    date_taken.id = "another-fresh-id".to_string();
    assert_eq!(
        store.load_entry(date_taken).unwrap_err(),
        "an entry already exists for this date"
    );
    assert_eq!(store.tasks.len(), 1);
    assert_eq!(store.goals.len(), 1);
    assert_eq!(store.entries.len(), 1);
}
