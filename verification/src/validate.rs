//! Request validation: well-formed emails, password length, and the
//! due-date rule for new tasks.

use vstd::prelude::*;

use crate::model::{AppError, CreateTask, CreateUser, Date, UpdateUser};

verus! {

/// Whether `s` is a well-formed email address.
pub uninterp spec fn email_ok(s: Seq<char>) -> bool;

/// Relies on validator's `ValidateEmail` for `&str`: the verdict depends
/// on the characters alone.
#[verifier::external_body]
fn check_email(s: &str) -> (r: bool)
    ensures
        r == email_ok(s@),
{
    validator::ValidateEmail::validate_email(&s)
}

/// A sign-up request the system accepts: a well-formed email and a
/// password of at least six characters.
pub open spec fn valid_sign_up(u: CreateUser) -> bool {
    email_ok(u.email@) && u.password@.len() >= 6
}

/// A task-creation request the system accepts: non-empty title and
/// description, and a due date no earlier than today.
pub open spec fn valid_new_task(t: CreateTask, today: Date) -> bool {
    t.title@.len() > 0 && t.description@.len() > 0 && !t.due_date.spec_before(today)
}

/// Whether `value` is an acceptable due date: today or later. A date
/// strictly in the past is rejected.
pub fn validate_date(value: &Date, today: &Date) -> (r: bool)
    ensures
        r == !value.spec_before(*today),
{
    !value.is_before(today)
}

/// Validates a sign-up request body.
pub fn validate_create_user(new_user: &CreateUser) -> (r: Result<(), AppError>)
    ensures
        r is Ok <==> valid_sign_up(*new_user),
        r matches Err(e) ==> e == AppError::InvalidInput,
{
    if !check_email(new_user.email.as_str()) {
        return Err(AppError::InvalidInput);
    }
    if new_user.password.as_str().unicode_len() < 6 {
        return Err(AppError::InvalidInput);
    }
    Ok(())
}

/// Validates a task-creation request body against today's date.
pub fn validate_create_task(new_task: &CreateTask, today: &Date) -> (r: Result<(), AppError>)
    ensures
        r is Ok <==> valid_new_task(*new_task, *today),
        r matches Err(e) ==> e == AppError::InvalidInput,
{
    if new_task.title.as_str().is_empty() {
        return Err(AppError::InvalidInput);
    }
    if new_task.description.as_str().is_empty() {
        return Err(AppError::InvalidInput);
    }
    if !validate_date(&new_task.due_date, today) {
        return Err(AppError::InvalidInput);
    }
    Ok(())
}

/// Validates an email-change request body.
pub fn validate_update_user(new_user: &UpdateUser) -> (r: Result<(), AppError>)
    ensures
        r is Ok <==> email_ok(new_user.email@),
        r matches Err(e) ==> e == AppError::InvalidInput,
{
    if check_email(new_user.email.as_str()) {
        Ok(())
    } else {
        Err(AppError::InvalidInput)
    }
}

} // verus!
