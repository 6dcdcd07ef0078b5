use task_tracker::account;
use task_tracker::auth::{jwt_validator, sign_in, sign_up};
use task_tracker::model::{AppError, CreateTask, CreateUser, Date, TaskStatus};
use task_tracker::task_repository::TaskRepository;
use task_tracker::token::verify;
use task_tracker::user_repository::UserRepository;
use task_tracker::validate::{validate_create_task, validate_create_user, validate_date};

fn credentials(email: &str, password: &str) -> CreateUser {
    CreateUser { email: String::from(email), password: String::from(password) }
}

#[test]
fn sign_up_rejects_malformed_email() {
    let mut users = UserRepository::init();
    let r = sign_up(&mut users, &credentials("not-an-email", "123456"), String::from("h"));
    assert_eq!(r.unwrap_err(), AppError::InvalidInput);
    assert!(users.find_all().is_empty());
}

#[test]
fn sign_up_rejects_short_password() {
    let mut users = UserRepository::init();
    let r = sign_up(&mut users, &credentials("a@x.com", "12345"), String::from("h"));
    assert_eq!(r.unwrap_err(), AppError::InvalidInput);
}

#[test]
fn sign_up_surfaces_duplicate_email_as_persistence_error() {
    let mut users = UserRepository::init();
    sign_up(&mut users, &credentials("a@x.com", "123456"), String::from("h1")).unwrap();
    let r = sign_up(&mut users, &credentials("a@x.com", "654321"), String::from("h2"));
    assert_eq!(r.unwrap_err(), AppError::PersistenceError);
}

#[test]
fn sign_up_then_sign_in_yields_token_with_same_email() {
    // The hashing capability is the caller's: it hands sign_up the hash
    // and sign_in the verification verdict for the presented password.
    let mut users = UserRepository::init();
    sign_up(&mut users, &credentials("a@x.com", "123456"), String::from("hash-of-123456"))
        .unwrap();
    let stored = users.find_by_email(&String::from("a@x.com")).unwrap();
    assert_eq!(stored.password, "hash-of-123456");
    let token = sign_in(&users, &String::from("a@x.com"), true, "jwt-secret").unwrap();
    let claims = verify("jwt-secret", &token).expect("issued token must verify");
    assert_eq!(claims.email, "a@x.com");
}

#[test]
fn sign_in_unknown_email_is_unauthenticated() {
    let users = UserRepository::init();
    let r = sign_in(&users, &String::from("a@x.com"), true, "jwt-secret");
    assert_eq!(r.unwrap_err(), AppError::Unauthenticated);
}

#[test]
fn sign_in_failed_password_check_is_unauthenticated() {
    let mut users = UserRepository::init();
    sign_up(&mut users, &credentials("a@x.com", "123456"), String::from("h")).unwrap();
    let r = sign_in(&users, &String::from("a@x.com"), false, "jwt-secret");
    assert_eq!(r.unwrap_err(), AppError::Unauthenticated);
}

#[test]
fn jwt_validator_resolves_a_stored_user() {
    let mut users = UserRepository::init();
    sign_up(&mut users, &credentials("a@x.com", "123456"), String::from("h")).unwrap();
    let token = sign_in(&users, &String::from("a@x.com"), true, "jwt-secret").unwrap();
    let user = jwt_validator(&users, "jwt-secret", &token).unwrap();
    assert_eq!(user.email, "a@x.com");
}

#[test]
fn jwt_validator_rejects_garbage_and_unknown_identities() {
    let mut users = UserRepository::init();
    sign_up(&mut users, &credentials("a@x.com", "123456"), String::from("h")).unwrap();
    let token = sign_in(&users, &String::from("a@x.com"), true, "jwt-secret").unwrap();
    // Garbage token.
    let r = jwt_validator(&users, "jwt-secret", &String::from("nonsense"));
    assert_eq!(r.unwrap_err(), AppError::Unauthenticated);
    // Wrong secret.
    let r = jwt_validator(&users, "other-secret", &token);
    assert_eq!(r.unwrap_err(), AppError::Unauthenticated);
    // Valid token, but the identity is gone from the store.
    let stored = users.find_by_email(&String::from("a@x.com")).unwrap();
    users.delete_user(stored.id).unwrap();
    let r = jwt_validator(&users, "jwt-secret", &token);
    assert_eq!(r.unwrap_err(), AppError::Unauthenticated);
}

#[test]
fn deleting_a_user_removes_all_of_their_tasks() {
    let mut users = UserRepository::init();
    let mut tasks = TaskRepository::init();
    sign_up(&mut users, &credentials("a@x.com", "123456"), String::from("h1")).unwrap();
    sign_up(&mut users, &credentials("b@x.com", "123456"), String::from("h2")).unwrap();
    let a = users.find_by_email(&String::from("a@x.com")).unwrap();
    let b = users.find_by_email(&String::from("b@x.com")).unwrap();
    let due = Date { year: 2026, month: 10, day: 13 };
    let ct = CreateTask {
        title: String::from("T"),
        description: String::from("D"),
        due_date: due,
    };
    tasks.create_task(&ct, a.id).unwrap();
    tasks.create_task(&ct, a.id).unwrap();
    tasks.create_task(&ct, b.id).unwrap();
    account::delete_user(&mut users, &mut tasks, a.id).unwrap();
    assert!(users.find_by_email(&String::from("a@x.com")).is_none());
    assert!(tasks.find_all_for_user(a.id).unwrap().is_empty());
    assert_eq!(tasks.find_all_for_user(b.id).unwrap().len(), 1);
    // Deleting again finds nothing.
    let r = account::delete_user(&mut users, &mut tasks, a.id);
    assert_eq!(r.unwrap_err(), AppError::NotFound);
}

#[test]
fn update_user_changes_the_email() {
    let mut users = UserRepository::init();
    sign_up(&mut users, &credentials("a@x.com", "123456"), String::from("h")).unwrap();
    let a = users.find_by_email(&String::from("a@x.com")).unwrap();
    let r = account::update_user(
        &mut users,
        a.id,
        task_tracker::model::UpdateUser { email: String::from("not-an-email") },
    );
    assert_eq!(r.unwrap_err(), AppError::InvalidInput);
    account::update_user(
        &mut users,
        a.id,
        task_tracker::model::UpdateUser { email: String::from("new@x.com") },
    )
    .unwrap();
    assert!(users.find_by_email(&String::from("new@x.com")).is_some());
    // Once the row is gone the update matches nothing and still succeeds.
    users.delete_user(a.id).unwrap();
    account::update_user(
        &mut users,
        a.id,
        task_tracker::model::UpdateUser { email: String::from("late@x.com") },
    )
    .unwrap();
    assert!(users.find_by_email(&String::from("late@x.com")).is_none());
}

#[test]
fn past_due_date_fails_validation_and_today_passes() {
    let today = Date { year: 2026, month: 10, day: 11 };
    let yesterday = Date { year: 2026, month: 10, day: 10 };
    let last_month = Date { year: 2026, month: 9, day: 30 };
    assert!(!validate_date(&yesterday, &today));
    assert!(!validate_date(&last_month, &today));
    assert!(validate_date(&today, &today));
    assert!(validate_date(&Date { year: 2026, month: 10, day: 12 }, &today));
    let make = |due: Date| CreateTask {
        title: String::from("T"),
        description: String::from("D"),
        due_date: due,
    };
    assert_eq!(
        validate_create_task(&make(yesterday), &today).unwrap_err(),
        AppError::InvalidInput
    );
    assert!(validate_create_task(&make(today), &today).is_ok());
}

#[test]
fn create_task_validation_requires_title_and_description() {
    let today = Date { year: 2026, month: 10, day: 11 };
    let empty_title = CreateTask {
        title: String::new(),
        description: String::from("D"),
        due_date: today,
    };
    let empty_description = CreateTask {
        title: String::from("T"),
        description: String::new(),
        due_date: today,
    };
    assert_eq!(
        validate_create_task(&empty_title, &today).unwrap_err(),
        AppError::InvalidInput
    );
    assert_eq!(
        validate_create_task(&empty_description, &today).unwrap_err(),
        AppError::InvalidInput
    );
}

#[test]
fn email_validation_follows_the_validator_crate() {
    assert!(validate_create_user(&credentials("user@example.com", "123456")).is_ok());
    assert!(validate_create_user(&credentials("first.last@sub.example.com", "123456")).is_ok());
    assert!(validate_create_user(&credentials("", "123456")).is_err());
    assert!(validate_create_user(&credentials("no-at-sign", "123456")).is_err());
    assert!(validate_create_user(&credentials("a@", "123456")).is_err());
}

#[test]
fn a_task_status_update_keeps_the_task_findable_by_its_owner() {
    let mut users = UserRepository::init();
    let mut tasks = TaskRepository::init();
    sign_up(&mut users, &credentials("a@x.com", "123456"), String::from("h")).unwrap();
    let a = users.find_by_email(&String::from("a@x.com")).unwrap();
    let due = Date { year: 2026, month: 10, day: 13 };
    let list = tasks
        .create_task(
            &CreateTask {
                title: String::from("T"),
                description: String::from("D"),
                due_date: due,
            },
            a.id,
        )
        .unwrap();
    let id = task_tracker::digits::u64_to_string(list[0].id);
    let refreshed = tasks.update_status(&id, a.id, &TaskStatus::InProgress).unwrap().unwrap();
    assert!(matches!(refreshed[0].status, TaskStatus::InProgress));
}
