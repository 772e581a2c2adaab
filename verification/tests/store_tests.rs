use keep_tasks::calendar::Date;
use keep_tasks::store::{
    count_completed, next_selection, prev_selection, sort_for_display, Store, ViewMode,
};
use keep_tasks::task::Task;

fn cs(s: &str) -> Vec<char> {
    s.chars().collect()
}

fn day(year: i32, month: u8, dom: u8) -> Date {
    Date::new(year, month, dom)
}

fn sample_store() -> Store {
    // three tasks on 2024-01-01 (9:00, 8:00, untimed), one on 2024-01-02
    let mut store = Store::new();
    assert!(store.upsert(None, &cs("A"), Some(day(2024, 1, 1)), &cs("09:00"), &cs("")));
    assert!(store.upsert(None, &cs("B"), Some(day(2024, 1, 1)), &cs("08:00"), &cs("")));
    assert!(store.upsert(None, &cs("C"), Some(day(2024, 1, 1)), &cs(""), &cs("")));
    assert!(store.upsert(None, &cs("D"), Some(day(2024, 1, 2)), &cs(""), &cs("")));
    store
}

#[test]
fn tasks_for_date_filters_exactly() {
    let store = sample_store();
    let on_first = store.tasks_for_date(&day(2024, 1, 1));
    assert_eq!(on_first.len(), 3);
    assert_eq!(on_first[0].0, 0);
    assert_eq!(on_first[0].1.content, cs("A"));
    assert_eq!(on_first[1].0, 1);
    assert_eq!(on_first[1].1.content, cs("B"));
    assert_eq!(on_first[2].0, 2);
    assert_eq!(on_first[2].1.content, cs("C"));
    let on_second = store.tasks_for_date(&day(2024, 1, 2));
    assert_eq!(on_second.len(), 1);
    assert_eq!(on_second[0].0, 3);
    assert_eq!(on_second[0].1.content, cs("D"));
    // storage order untouched by querying
    assert_eq!(store.tasks.len(), 4);
    assert_eq!(store.tasks[0].content, cs("A"));
    assert_eq!(store.tasks[3].content, cs("D"));
}

#[test]
fn tasks_for_empty_date_is_empty() {
    let store = sample_store();
    assert!(store.tasks_for_date(&day(2030, 6, 15)).is_empty());
}

#[test]
fn sort_for_display_orders_timed_then_untimed() {
    let store = sample_store();
    let sorted = sort_for_display(store.tasks_for_date(&day(2024, 1, 1)));
    let contents: Vec<Vec<char>> = sorted.iter().map(|(_, t)| t.content.clone()).collect();
    assert_eq!(contents, vec![cs("B"), cs("A"), cs("C")]);
    // the store positions ride along
    assert_eq!(sorted[0].0, 1);
    assert_eq!(sorted[1].0, 0);
    assert_eq!(sorted[2].0, 2);
}

#[test]
fn sort_for_display_keeps_every_entry() {
    let mut entries: Vec<(usize, Task)> = Vec::new();
    entries.push((7, Task::new(cs("late"), false, None, None, None)));
    entries.push((2, Task::new(cs("early"), false, None, parse("06:30"), None)));
    entries.push((5, Task::new(cs("mid"), true, None, parse("12:00"), None)));
    let sorted = sort_for_display(entries);
    assert_eq!(sorted.len(), 3);
    assert_eq!(sorted[0].1.content, cs("early"));
    assert_eq!(sorted[1].1.content, cs("mid"));
    assert_eq!(sorted[2].1.content, cs("late"));
}

fn parse(s: &str) -> Option<keep_tasks::calendar::TimeOfDay> {
    keep_tasks::calendar::parse_hhmm(&cs(s))
}

#[test]
fn overdue_takes_incomplete_past_tasks_only() {
    let mut store = sample_store();
    // complete task B (index 1): it must drop out of the overdue list
    assert!(store.toggle(1));
    let today = day(2024, 1, 2);
    let over = store.overdue(&today);
    assert_eq!(over.len(), 2);
    assert_eq!(over[0].0, 0);
    assert_eq!(over[0].1.content, cs("A"));
    assert_eq!(over[1].0, 2);
    assert_eq!(over[1].1.content, cs("C"));
}

#[test]
fn undated_task_is_never_overdue() {
    let mut store = Store::new();
    assert!(store.upsert(None, &cs("floating"), None, &cs(""), &cs("")));
    assert!(store.overdue(&day(2099, 12, 31)).is_empty());
    // completion makes no difference to an undated task
    assert!(store.toggle(0));
    assert!(store.overdue(&day(2099, 12, 31)).is_empty());
}

#[test]
fn overdue_is_strict_on_the_date() {
    let store = sample_store();
    // the reference day itself is not overdue
    let over = store.overdue(&day(2024, 1, 1));
    assert!(over.is_empty());
}

#[test]
fn upsert_rejects_empty_content() {
    let mut store = sample_store();
    assert!(!store.upsert(None, &cs(""), Some(day(2024, 3, 3)), &cs(""), &cs("")));
    assert_eq!(store.tasks.len(), 4);
}

#[test]
fn upsert_rejects_whitespace_only_content() {
    let mut store = sample_store();
    let before: Vec<Vec<char>> = store.tasks.iter().map(|t| t.content.clone()).collect();
    assert!(!store.upsert(None, &cs(" \t\n  "), Some(day(2024, 3, 3)), &cs("09:00"), &cs("")));
    assert_eq!(store.tasks.len(), 4);
    let after: Vec<Vec<char>> = store.tasks.iter().map(|t| t.content.clone()).collect();
    assert_eq!(before, after);
}

#[test]
fn upsert_trims_content() {
    let mut store = Store::new();
    assert!(store.upsert(None, &cs("  walk the dog \n"), None, &cs(""), &cs("")));
    assert_eq!(store.tasks[0].content, cs("walk the dog"));
}

#[test]
fn upsert_coerces_malformed_time_to_none() {
    let mut store = Store::new();
    assert!(store.upsert(None, &cs("review"), None, &cs("13:5"), &cs("25:00")));
    assert_eq!(store.tasks[0].start_time, None);
    assert_eq!(store.tasks[0].end_time, None);
}

#[test]
fn upsert_parses_well_formed_times() {
    let mut store = Store::new();
    assert!(store.upsert(None, &cs("standup"), None, &cs(" 09:15 "), &cs("09:45")));
    let t = &store.tasks[0];
    assert_eq!(t.start_time, parse("09:15"));
    assert_eq!(t.end_time, parse("09:45"));
    assert!(!t.completed);
}

#[test]
fn upsert_edit_keeps_date_and_completion() {
    let mut store = sample_store();
    assert!(store.toggle(0));
    assert!(store.upsert(Some(0), &cs("A2"), None, &cs("10:00"), &cs("")));
    let t = &store.tasks[0];
    assert_eq!(t.content, cs("A2"));
    assert!(t.completed);
    assert_eq!(t.date, Some(day(2024, 1, 1)));
    assert_eq!(t.start_time, parse("10:00"));
    assert_eq!(store.tasks.len(), 4);
}

#[test]
fn upsert_out_of_range_edit_is_a_no_op() {
    let mut store = sample_store();
    assert!(!store.upsert(Some(9), &cs("ghostly"), None, &cs(""), &cs("")));
    assert_eq!(store.tasks.len(), 4);
    assert_eq!(store.tasks[3].content, cs("D"));
}

#[test]
fn toggle_flips_once_and_twice_restores() {
    let mut store = sample_store();
    assert!(!store.tasks[2].completed);
    assert!(store.toggle(2));
    assert!(store.tasks[2].completed);
    assert!(store.toggle(2));
    assert!(!store.tasks[2].completed);
    // neighbours untouched
    assert!(!store.tasks[0].completed);
    assert!(!store.tasks[1].completed);
    assert!(!store.tasks[3].completed);
}

#[test]
fn toggle_out_of_range_is_a_no_op() {
    let mut store = sample_store();
    assert!(!store.toggle(4));
    assert_eq!(store.tasks.len(), 4);
    assert!(!store.tasks[3].completed);
}

#[test]
fn delete_shifts_later_positions_down() {
    let mut store = sample_store();
    assert!(store.delete(1));
    assert_eq!(store.tasks.len(), 3);
    assert_eq!(store.tasks[0].content, cs("A"));
    assert_eq!(store.tasks[1].content, cs("C"));
    assert_eq!(store.tasks[2].content, cs("D"));
}

#[test]
fn delete_out_of_range_is_a_no_op() {
    let mut store = sample_store();
    assert!(!store.delete(99));
    assert_eq!(store.tasks.len(), 4);
}

#[test]
fn set_notes_replaces_notes_only() {
    let mut store = sample_store();
    store.set_notes(cs("remember the milk"));
    assert_eq!(store.notes, cs("remember the milk"));
    assert_eq!(store.tasks.len(), 4);
}

#[test]
fn current_tasks_in_notes_pane_is_empty() {
    let store = sample_store();
    assert!(store.current_tasks(ViewMode::Notes, &day(2024, 1, 1)).is_empty());
}

#[test]
fn current_tasks_in_scheduled_pane_is_sorted() {
    let store = sample_store();
    let rows = store.current_tasks(ViewMode::Scheduled, &day(2024, 1, 1));
    let contents: Vec<Vec<char>> = rows.iter().map(|(_, t)| t.content.clone()).collect();
    assert_eq!(contents, vec![cs("B"), cs("A"), cs("C")]);
}

#[test]
fn view_mode_toggles_between_panes() {
    assert_eq!(ViewMode::Scheduled.toggled(), ViewMode::Notes);
    assert_eq!(ViewMode::Notes.toggled(), ViewMode::Scheduled);
}

#[test]
fn selection_steps_wrap() {
    assert_eq!(next_selection(0, 3), 1);
    assert_eq!(next_selection(2, 3), 0);
    assert_eq!(next_selection(5, 5), 1);
    assert_eq!(next_selection(4, 0), 4);
    assert_eq!(prev_selection(0, 3), 2);
    assert_eq!(prev_selection(2, 3), 1);
    assert_eq!(prev_selection(7, 0), 7);
}

#[test]
fn count_completed_counts_exactly() {
    let mut store = sample_store();
    assert!(store.toggle(0));
    assert!(store.toggle(2));
    let rows = store.current_tasks(ViewMode::Scheduled, &day(2024, 1, 1));
    assert_eq!(count_completed(&rows), 2);
    assert_eq!(count_completed(&Vec::new()), 0);
}
