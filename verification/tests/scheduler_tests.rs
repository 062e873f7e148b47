use planner_core::models::CreateTaskInput;
use planner_core::scheduler::should_notify;
use planner_core::store::Store;
use planner_core::strings::{str_eq, str_lex_le};

fn reminder_task(title: &str, date: &str, time: &str, lead: i32) -> CreateTaskInput {
    CreateTaskInput {
        title: title.to_string(),
        description: None,
        scheduled_date: date.to_string(),
        scheduled_time: Some(time.to_string()),
        duration_minutes: None,
        priority: None,
        reminder_minutes: Some(lead),
    }
}

#[test]
fn notify_matches_the_exact_minute() {
    assert!(should_notify("13:45", "14:00", 15));
    assert!(!should_notify("13:44", "14:00", 15));
    assert!(!should_notify("13:46", "14:00", 15));
    assert!(should_notify("14:00", "14:00", 0));
}

#[test]
fn notify_wraps_on_the_day_clock() {
    assert!(should_notify("23:50", "00:10", 20));
    assert!(should_notify("00:10", "23:50", -20));
    assert!(should_notify("13:45", "14:00", 15 + 1440));
    assert!(should_notify("13:45", "14:00", 15 - 1440));
}

#[test]
fn notify_refuses_malformed_times() {
    assert!(!should_notify("1345", "14:00", 15));
    assert!(!should_notify("13:45", "24:00", 15));
    assert!(!should_notify("13:45", "14:60", 15));
    assert!(!should_notify("13:45", "9:00", 540));
    assert!(!should_notify("", "14:00", 15));
    assert!(!should_notify("13:45", "noon!", 15));
}

#[test]
fn scan_fires_once_and_consumes_the_reminder() {
    let mut store = Store::new();
    let t = store
        .create_task(reminder_task("standup", "2024-02-01", "14:00", 15))
        .unwrap();

    let fired = store.scan_due_reminders("2024-02-01", "13:45");
    assert_eq!(fired.len(), 1);
    assert_eq!(fired[0].task_id, t.id);
    assert_eq!(fired[0].title, "standup");
    assert_eq!(fired[0].scheduled_time, "14:00");
    assert!(store.tasks[0].reminder_minutes.is_none());

    let again = store.scan_due_reminders("2024-02-01", "13:46");
    assert_eq!(again.len(), 0);
    let same_minute = store.scan_due_reminders("2024-02-01", "13:45");
    assert_eq!(same_minute.len(), 0);
}

#[test]
fn scan_skips_wrong_minute_day_and_state() {
    let mut store = Store::new();
    store
        .create_task(reminder_task("other day", "2024-02-02", "14:00", 15))
        .unwrap();
    let done = store
        .create_task(reminder_task("done", "2024-02-01", "14:00", 15))
        .unwrap();
    store.toggle_task_completion(done.id).unwrap();
    let mut untimed = reminder_task("untimed", "2024-02-01", "14:00", 15);
    untimed.scheduled_time = None;
    store.create_task(untimed).unwrap();
    let mut no_lead = reminder_task("no lead", "2024-02-01", "14:00", 15);
    no_lead.reminder_minutes = None;
    store.create_task(no_lead).unwrap();
    store
        .create_task(reminder_task("bad time", "2024-02-01", "2pm", 15))
        .unwrap();

    let fired = store.scan_due_reminders("2024-02-01", "13:45");
    assert_eq!(fired.len(), 0);
    assert_eq!(store.tasks.len(), 5);
}

#[test]
fn scan_handles_several_due_tasks_in_stored_order() {
    let mut store = Store::new();
    store
        .create_task(reminder_task("first", "2024-02-01", "14:00", 15))
        .unwrap();
    store
        .create_task(reminder_task("second", "2024-02-01", "13:50", 5))
        .unwrap();
    let fired = store.scan_due_reminders("2024-02-01", "13:45");
    let titles: Vec<&str> = fired.iter().map(|f| f.title.as_str()).collect();
    assert_eq!(titles, vec!["first", "second"]);
}

#[test]
fn string_order_is_lexicographic() {
    assert!(str_eq("2024-02-01", "2024-02-01"));
    assert!(!str_eq("2024-02-01", "2024-02-02"));
    assert!(str_lex_le("2024-01-31", "2024-02-01"));
    assert!(!str_lex_le("2024-02-02", "2024-02-01"));
    assert!(str_lex_le("09:00", "09:00"));
    assert!(str_lex_le("", "09:00"));
    assert!(!str_lex_le("09:00", ""));
    assert!(str_lex_le("09:0", "09:00"));
}
