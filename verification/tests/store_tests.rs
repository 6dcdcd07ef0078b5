use task_tracker::digits::{parse_id, u64_to_string};
use task_tracker::model::{AppError, CreateTask, Date, TaskPreview, TaskStatus, UpdateUser};
use task_tracker::task_repository::TaskRepository;
use task_tracker::user_repository::UserRepository;

fn date(year: u16, month: u8, day: u8) -> Date {
    Date { year, month, day }
}

fn new_task(title: &str, description: &str, due: Date) -> CreateTask {
    CreateTask {
        title: String::from(title),
        description: String::from(description),
        due_date: due,
    }
}

#[test]
fn create_task_starts_as_todo_and_returns_list() {
    let mut tasks = TaskRepository::init();
    let due = date(2026, 10, 13);
    let list = tasks.create_task(&new_task("T", "D", due), 7).unwrap();
    assert_eq!(list.len(), 1);
    assert_eq!(list[0].title, "T");
    assert_eq!(list[0].description, "D");
    assert!(matches!(list[0].status, TaskStatus::ToDo));
    assert_eq!(list[0].due_date, due);
    let list2 = tasks.create_task(&new_task("U", "E", due), 7).unwrap();
    assert_eq!(list2.len(), 2);
    assert_eq!(list2[0].title, "T");
    assert_eq!(list2[1].title, "U");
}

#[test]
fn find_by_id_is_owner_scoped() {
    let mut tasks = TaskRepository::init();
    let due = date(2026, 10, 13);
    let list = tasks.create_task(&new_task("T", "D", due), 1).unwrap();
    let id = u64_to_string(list[0].id);
    // Owner sees the task.
    let found = tasks.find_by_id(&id, 1).unwrap();
    assert!(found.is_some());
    // Another user, with a structurally valid id, does not.
    assert!(tasks.find_by_id(&id, 2).unwrap().is_none());
}

#[test]
fn update_and_delete_are_owner_scoped() {
    let mut tasks = TaskRepository::init();
    let due = date(2026, 10, 13);
    let list = tasks.create_task(&new_task("T", "D", due), 1).unwrap();
    let id = u64_to_string(list[0].id);
    // User 2 can neither update nor delete user 1's task.
    assert!(tasks.update_status(&id, 2, &TaskStatus::Done).unwrap().is_none());
    assert!(tasks.delete_by_id(&id, 2).unwrap().is_none());
    // The task is still there for its owner, unchanged.
    let still = tasks.find_by_id(&id, 1).unwrap().unwrap();
    assert!(matches!(still.status, TaskStatus::ToDo));
    // The owner can delete it.
    let after = tasks.delete_by_id(&id, 1).unwrap().unwrap();
    assert!(after.is_empty());
}

#[test]
fn malformed_identifier_is_rejected() {
    let mut tasks = TaskRepository::init();
    tasks.create_task(&new_task("T", "D", date(2026, 10, 13)), 1).unwrap();
    for bad in ["abc", "", "12x", "-3", "18446744073709551616"] {
        let r = tasks.find_by_id(&String::from(bad), 1);
        assert_eq!(r.unwrap_err(), AppError::InvalidIdentifier);
    }
    // The largest id that fits is still well-formed.
    assert_eq!(parse_id("18446744073709551615"), Some(u64::MAX));
    assert_eq!(parse_id("18446744073709551616"), None);
    assert_eq!(parse_id("0"), Some(0));
}

#[test]
fn done_task_is_excluded_from_due_today() {
    // A task due in two days, moved to Done, no longer shows up for that
    // date even though the date matches.
    let mut tasks = TaskRepository::init();
    let due = date(2026, 10, 13);
    let list = tasks.create_task(&new_task("T", "D", due), 1).unwrap();
    assert!(matches!(list[0].status, TaskStatus::ToDo));
    let id = u64_to_string(list[0].id);
    assert!(tasks.update_status(&id, 1, &TaskStatus::Done).unwrap().is_some());
    assert!(tasks.find_by_due_date(1, due).unwrap().is_empty());
}

#[test]
fn due_today_keeps_matching_open_tasks() {
    let mut tasks = TaskRepository::init();
    let today = date(2026, 10, 11);
    let other_day = date(2026, 10, 12);
    tasks.create_task(&new_task("open", "due now", today), 1).unwrap();
    tasks.create_task(&new_task("later", "not due", other_day), 1).unwrap();
    let list = tasks.create_task(&new_task("closing", "due now", today), 1).unwrap();
    let id = u64_to_string(list[2].id);
    tasks.update_status(&id, 1, &TaskStatus::Done).unwrap();
    let due = tasks.find_by_due_date(1, today).unwrap();
    assert_eq!(due.len(), 1);
    assert_eq!(due[0].title, "open");
}

#[test]
fn delete_all_for_user_empties_only_that_owner() {
    let mut tasks = TaskRepository::init();
    let due = date(2026, 10, 13);
    tasks.create_task(&new_task("A1", "D", due), 1).unwrap();
    tasks.create_task(&new_task("A2", "D", due), 1).unwrap();
    tasks.create_task(&new_task("B1", "D", due), 2).unwrap();
    let removed = tasks.delete_all_for_user(1).unwrap();
    assert_eq!(removed, 2);
    assert!(tasks.find_all_for_user(1).unwrap().is_empty());
    let kept = tasks.find_all_for_user(2).unwrap();
    assert_eq!(kept.len(), 1);
    assert_eq!(kept[0].title, "B1");
}

#[test]
fn user_store_rejects_duplicate_email() {
    let mut users = UserRepository::init();
    assert!(users.create_user(String::from("a@x.com"), String::from("h1")).is_ok());
    let r = users.create_user(String::from("a@x.com"), String::from("h2"));
    assert_eq!(r.unwrap_err(), AppError::PersistenceError);
    assert!(users.create_user(String::from("b@x.com"), String::from("h3")).is_ok());
    assert_eq!(users.find_all().len(), 2);
}

#[test]
fn user_store_update_and_delete() {
    let mut users = UserRepository::init();
    users.create_user(String::from("a@x.com"), String::from("h1")).unwrap();
    users.create_user(String::from("b@x.com"), String::from("h2")).unwrap();
    let a = users.find_by_email(&String::from("a@x.com")).unwrap();
    // Moving a's email onto b's address is refused.
    let clash = users.update_user(a.id, UpdateUser { email: String::from("b@x.com") });
    assert_eq!(clash.unwrap_err(), AppError::PersistenceError);
    // A fresh address is fine.
    users.update_user(a.id, UpdateUser { email: String::from("c@x.com") }).unwrap();
    assert!(users.find_by_email(&String::from("a@x.com")).is_none());
    assert!(users.find_by_email(&String::from("c@x.com")).is_some());
    // Deleting returns the stored row.
    let gone = users.delete_user(a.id).unwrap();
    assert_eq!(gone.email, "c@x.com");
    assert!(users.delete_user(a.id).is_none());
}

#[test]
fn update_user_with_unknown_id_matches_nothing_and_succeeds() {
    let mut users = UserRepository::init();
    users.create_user(String::from("a@x.com"), String::from("h1")).unwrap();
    // No row carries the id: the update matches nothing, reports success,
    // and leaves the store as it was — even if the email is already taken.
    assert!(users.update_user(999, UpdateUser { email: String::from("a@x.com") }).is_ok());
    assert!(users.update_user(999, UpdateUser { email: String::from("z@x.com") }).is_ok());
    assert!(users.find_by_email(&String::from("a@x.com")).is_some());
    assert!(users.find_by_email(&String::from("z@x.com")).is_none());
    assert_eq!(users.find_all().len(), 1);
}

#[test]
fn preview_renders_the_id_in_decimal() {
    let mut tasks = TaskRepository::init();
    let due = date(2026, 10, 13);
    for _ in 0..11 {
        tasks.create_task(&new_task("T", "D", due), 1).unwrap();
    }
    let list = tasks.find_all_for_user(1).unwrap();
    let preview = TaskPreview::of_task(&list[10]);
    assert_eq!(preview.id, "10");
    assert_eq!(preview.title, "T");
    assert_eq!(u64_to_string(0), "0");
    assert_eq!(u64_to_string(987654321), "987654321");
}
