use task_manager::console::Command;
use task_manager::console::parse_command;
use task_manager::console::render_menu;
use task_manager::store::TaskStore;
use task_manager::task::Priority;
use task_manager::task::Task;
use task_manager::task::Timestamp;

fn ts(year: u32, month: u32, day: u32, hour: u32, minute: u32, second: u32) -> Timestamp {
    Timestamp { year, month, day, hour, minute, second }
}

fn task(name: &str, description: &str, priority: Priority, at: Timestamp) -> Task {
    Task::with_time(name.to_owned(), description.to_owned(), priority, at)
}

#[test]
fn add_then_find_returns_the_added_task() {
    let mut store = TaskStore::new();
    let at = ts(2024, 3, 5, 7, 9, 2);
    store.add_task(task("groceries", "milk and bread", Priority::High, at));
    let i = store.find_task("groceries").expect("the added task is found");
    assert_eq!(i, 0);
    let found = store.get(i);
    assert_eq!(found.name, "groceries");
    assert_eq!(found.description, "milk and bread");
    assert_eq!(found.priority, Priority::High);
    assert_eq!(found.add_time, at);
    let text = found.priority.to_string();
    assert!(text == "Low" || text == "Medium" || text == "High");
}

#[test]
fn find_returns_first_match_only() {
    let mut store = TaskStore::new();
    let at = ts(2024, 1, 1, 0, 0, 0);
    store.add_task(task("a", "first", Priority::Low, at));
    store.add_task(task("b", "second", Priority::Low, at));
    store.add_task(task("a", "third", Priority::Low, at));
    assert_eq!(store.find_task("a"), Some(0));
    assert_eq!(store.find_task("b"), Some(1));
    assert_eq!(store.find_task("c"), None);
}

#[test]
fn find_works_on_multibyte_names() {
    let mut store = TaskStore::new();
    let at = ts(2024, 1, 1, 0, 0, 0);
    store.add_task(task("задача", "кириллица", Priority::Medium, at));
    assert_eq!(store.find_task("задача"), Some(0));
    assert_eq!(store.find_task("задачи"), None);
}

#[test]
fn remove_on_singleton_store_empties_it() {
    let mut store = TaskStore::new();
    store.add_task(task("only", "one", Priority::Low, ts(2024, 1, 1, 0, 0, 0)));
    let msg = store.remove_task("only").expect("removal succeeds");
    assert_eq!(msg, "Task \"only\" removed successfully");
    assert_eq!(store.len(), 0);
}

#[test]
fn remove_of_absent_name_fails_and_changes_nothing() {
    let mut store = TaskStore::new();
    let at = ts(2024, 1, 1, 0, 0, 0);
    store.add_task(task("a", "first", Priority::Low, at));
    store.add_task(task("b", "second", Priority::High, at));
    let err = store.remove_task("missing").expect_err("removal fails");
    assert_eq!(err, "Task with name \"missing\" doesn't exist");
    assert_eq!(store.len(), 2);
    assert_eq!(store.get(0).name, "a");
    assert_eq!(store.get(1).name, "b");
}

#[test]
fn remove_shifts_later_tasks_left() {
    let mut store = TaskStore::new();
    let at = ts(2024, 1, 1, 0, 0, 0);
    store.add_task(task("a", "first", Priority::Low, at));
    store.add_task(task("b", "second", Priority::High, at));
    store.add_task(task("c", "third", Priority::Medium, at));
    store.remove_task("b").unwrap();
    assert_eq!(store.len(), 2);
    assert_eq!(store.get(0).name, "a");
    assert_eq!(store.get(1).name, "c");
}

#[test]
fn edit_preserves_creation_timestamp() {
    let mut store = TaskStore::new();
    let original_time = ts(2020, 6, 15, 12, 30, 45);
    let other_time = ts(2024, 1, 1, 0, 0, 0);
    store.add_task(task("old name", "old text", Priority::Low, original_time));
    let replacement = task("new name", "new text", Priority::High, other_time);
    let msg = store.edit_task("old name", replacement).expect("edit succeeds");
    assert_eq!(msg, "Task \"old name\" updated successfully");
    let edited = store.get(0);
    assert_eq!(edited.name, "new name");
    assert_eq!(edited.description, "new text");
    assert_eq!(edited.priority, Priority::High);
    assert_eq!(edited.add_time, original_time);
}

#[test]
fn edit_of_absent_name_fails_and_mutates_nothing() {
    let mut store = TaskStore::new();
    let at = ts(2020, 6, 15, 12, 30, 45);
    store.add_task(task("keep", "untouched", Priority::Medium, at));
    let replacement = task("x", "y", Priority::High, ts(2024, 1, 1, 0, 0, 0));
    let err = store.edit_task("missing", replacement).expect_err("edit fails");
    assert_eq!(err, "Task with name \"missing\" doesn't exist");
    assert_eq!(store.len(), 1);
    let kept = store.get(0);
    assert_eq!(kept.name, "keep");
    assert_eq!(kept.description, "untouched");
    assert_eq!(kept.priority, Priority::Medium);
    assert_eq!(kept.add_time, at);
}

#[test]
fn json_round_trip_reproduces_every_field() {
    let mut store = TaskStore::new();
    store.add_task(task("a", "plain", Priority::High, ts(2024, 3, 5, 7, 9, 2)));
    store.add_task(task(
        "tricky \"name\"",
        "a \\ backslash, a\ttab and a\nnewline",
        Priority::Medium,
        ts(1999, 12, 31, 23, 59, 59),
    ));
    store.add_task(task("", "", Priority::Low, ts(0, 1, 1, 0, 0, 0)));
    let text = store.to_json();
    let mut reloaded = TaskStore::new();
    reloaded.load_from_json(&text).expect("the saved text loads");
    assert_eq!(reloaded.len(), store.len());
    for i in 0..store.len() {
        assert_eq!(reloaded.get(i).name, store.get(i).name);
        assert_eq!(reloaded.get(i).description, store.get(i).description);
        assert_eq!(reloaded.get(i).priority, store.get(i).priority);
        assert_eq!(reloaded.get(i).add_time, store.get(i).add_time);
    }
}

#[test]
fn json_text_has_the_documented_shape() {
    let mut store = TaskStore::new();
    store.add_task(task("a", "d", Priority::Low, ts(2024, 3, 5, 7, 9, 2)));
    let text = store.to_json();
    assert_eq!(
        text,
        "[{\"name\":\"a\",\"description\":\"d\",\"priority\":\"Low\",\"add_time\":\"2024-03-05T07:09:02\"}]"
    );
}

#[test]
fn empty_store_round_trips() {
    let store = TaskStore::new();
    assert_eq!(store.to_json(), "[]");
    let mut reloaded = TaskStore::new();
    reloaded.add_task(task("stale", "gone after load", Priority::Low, ts(2024, 1, 1, 0, 0, 0)));
    let msg = reloaded.load_from_json("[]").expect("the empty array loads");
    assert_eq!(msg, "Data read successfully");
    assert_eq!(reloaded.len(), 0);
}

#[test]
fn malformed_json_fails_and_leaves_the_store_unchanged() {
    let mut store = TaskStore::new();
    let at = ts(2024, 3, 5, 7, 9, 2);
    store.add_task(task("kept", "still here", Priority::High, at));
    for bad in [
        "",
        "not json",
        "[",
        "[]trailing",
        "[{\"name\":\"a\"}]",
        "[{\"name\":\"a\",\"description\":\"d\",\"priority\":\"Urgent\",\"add_time\":\"2024-03-05T07:09:02\"}]",
        "[{\"name\":\"a\",\"description\":\"d\",\"priority\":\"Low\",\"add_time\":\"2024-13-05T07:09:02\"}]",
    ] {
        let err = store.load_from_json(bad).expect_err("malformed text is rejected");
        assert_eq!(err, "Error reading file: malformed JSON");
        assert_eq!(store.len(), 1);
        assert_eq!(store.get(0).name, "kept");
        assert_eq!(store.get(0).description, "still here");
        assert_eq!(store.get(0).add_time, at);
    }
}

#[test]
fn full_scenario_add_find_remove_save_load() {
    let mut store = TaskStore::new();
    assert_eq!(store.len(), 0);
    store.add_task(task("A", "d1", Priority::High, ts(2024, 3, 5, 7, 9, 2)));
    store.add_task(task("B", "d2", Priority::Low, ts(2024, 3, 5, 7, 9, 3)));
    assert_eq!(store.find_task("B"), Some(1));
    store.remove_task("A").expect("A is removed");
    assert_eq!(store.len(), 1);
    assert_eq!(store.get(0).name, "B");
    let saved = store.to_json();
    let mut fresh = TaskStore::new();
    fresh.load_from_json(&saved).expect("the saved text loads");
    assert_eq!(fresh.len(), 1);
    assert_eq!(fresh.get(0).name, "B");
    assert_eq!(fresh.get(0).description, "d2");
    assert_eq!(fresh.get(0).priority, Priority::Low);
}

#[test]
fn unrecognized_priority_text_is_coerced_to_low() {
    assert_eq!(Priority::from_text("urgent"), Priority::Low);
    assert_eq!(Priority::from_text(""), Priority::Low);
    assert_eq!(Priority::from_text("lows"), Priority::Low);
    assert_eq!(Priority::from_text("hig"), Priority::Low);
}

#[test]
fn priority_text_is_matched_ignoring_ascii_case() {
    assert_eq!(Priority::from_text("low"), Priority::Low);
    assert_eq!(Priority::from_text("LOW"), Priority::Low);
    assert_eq!(Priority::from_text("Medium"), Priority::Medium);
    assert_eq!(Priority::from_text("mEdIuM"), Priority::Medium);
    assert_eq!(Priority::from_text("high"), Priority::High);
    assert_eq!(Priority::from_text("HIGH"), Priority::High);
}

#[test]
fn priority_tags_are_exact() {
    assert_eq!(Priority::Low.to_string(), "Low");
    assert_eq!(Priority::Medium.to_string(), "Medium");
    assert_eq!(Priority::High.to_string(), "High");
}

#[test]
fn render_produces_the_documented_block() {
    let t = task("groceries", "milk and bread", Priority::High, ts(2024, 3, 5, 7, 9, 2));
    assert_eq!(t.render(), "groceries | High | 05-03-2024 07:09:02\n\"milk and bread\"\n\n");
}

#[test]
fn render_all_concatenates_blocks_in_order() {
    let mut store = TaskStore::new();
    let a = task("a", "d1", Priority::Low, ts(2024, 1, 2, 3, 4, 5));
    let b = task("b", "d2", Priority::High, ts(2025, 6, 7, 8, 9, 10));
    let expected = format!("{}{}", a.render(), b.render());
    store.add_task(a);
    store.add_task(b);
    assert_eq!(store.render_all(), expected);
}

#[test]
fn timestamp_parts_are_clamped_into_range() {
    let low = Timestamp::from_parts(-5, 0, 0, 30, 77, 99);
    assert_eq!(low, ts(0, 1, 1, 23, 59, 59));
    let high = Timestamp::from_parts(12345, 13, 40, 5, 6, 7);
    assert_eq!(high, ts(9999, 12, 31, 5, 6, 7));
    let plain = Timestamp::from_parts(2024, 3, 5, 7, 9, 2);
    assert_eq!(plain, ts(2024, 3, 5, 7, 9, 2));
}

#[test]
fn new_task_captures_a_well_formed_current_time() {
    let t = Task::new("n".to_owned(), "d".to_owned(), Priority::Medium);
    assert_eq!(t.name, "n");
    assert_eq!(t.description, "d");
    assert_eq!(t.priority, Priority::Medium);
    assert!(t.add_time.year <= 9999);
    assert!((1..=12).contains(&t.add_time.month));
    assert!((1..=31).contains(&t.add_time.day));
    assert!(t.add_time.hour <= 23);
    assert!(t.add_time.minute <= 59);
    assert!(t.add_time.second <= 59);
}

#[test]
fn command_indices_follow_the_menu() {
    assert_eq!(parse_command("1"), Command::AddTask);
    assert_eq!(parse_command("2"), Command::FindTask);
    assert_eq!(parse_command("3"), Command::EditTask);
    assert_eq!(parse_command("4"), Command::RemoveTask);
    assert_eq!(parse_command("5"), Command::PrintAll);
    assert_eq!(parse_command("6"), Command::StoreToFile);
    assert_eq!(parse_command("7"), Command::ReadFromFile);
    assert_eq!(parse_command("8"), Command::Invalid);
    assert_eq!(parse_command("0"), Command::Invalid);
    assert_eq!(parse_command(""), Command::Invalid);
    assert_eq!(parse_command("one"), Command::Invalid);
}

#[test]
fn menu_lists_the_seven_commands_in_order() {
    assert_eq!(
        render_menu(),
        "1. Add task\n2. Find task\n3. Edit task\n4. Remove task\n5. Print all tasks\n6. Store tasks to file\n7. Read tasks from file\n"
    );
}
