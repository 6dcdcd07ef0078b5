//! Account maintenance for an authenticated user: changing the email and
//! deleting the account with its cascade over the task store.

use vstd::prelude::*;

use crate::model::{AppError, UpdateUser};
use crate::task_repository::{tasks_of_others, TaskRepository};
use crate::user_repository::UserRepository;
use crate::validate::{email_ok, validate_update_user};

verus! {

/// Changes the authenticated user's email: validates the new address,
/// then updates the one row carrying `user_id`. A missing row matches
/// nothing, changes nothing, and still reports success. Every outcome is
/// pinned, so only that row's email can ever change.
pub fn update_user(repo: &mut UserRepository, user_id: u64, new_user: UpdateUser) -> (r: Result<
    (),
    AppError,
>)
    requires
        old(repo).wf(),
    ensures
        final(repo).wf(),
        final(repo).next_id == old(repo).next_id,
        r matches Err(e) ==> *final(repo) == *old(repo) && ((e == AppError::InvalidInput
            && !email_ok(new_user.email@)) || (e == AppError::PersistenceError && old(
            repo,
        ).email_taken_by_other(new_user.email@, user_id))),
        !email_ok(new_user.email@) ==> r == Err::<(), AppError>(AppError::InvalidInput)
            && *final(repo) == *old(repo),
        email_ok(new_user.email@) && !old(repo).has_id(user_id) ==> r == Ok::<(), AppError>(())
            && *final(repo) == *old(repo),
        email_ok(new_user.email@) && old(repo).has_id(user_id) && old(repo).email_taken_by_other(
            new_user.email@,
            user_id,
        ) ==> r == Err::<(), AppError>(AppError::PersistenceError) && *final(repo) == *old(repo),
        email_ok(new_user.email@) && old(repo).has_id(user_id) && !old(repo).email_taken_by_other(
            new_user.email@,
            user_id,
        ) ==> r == Ok::<(), AppError>(()) && exists|i: int|
            0 <= i < old(repo).users@.len() && (#[trigger] old(repo).users@[i].id) == user_id
                && final(repo).users@ =~= old(repo).users@.update(
                i,
                (crate::model::User {
                    id: user_id,
                    email: new_user.email,
                    password: old(repo).users@[i].password,
                }),
            ),
{
    match validate_update_user(&new_user) {
        Ok(_) => {},
        Err(e) => {
            return Err(e);
        },
    }
    repo.update_user(user_id, new_user)
}

/// Deletes the authenticated user's account and every task it owns. The
/// user row goes first; the cascade then removes all tasks scoped to the
/// same owner, leaving the other owners' tasks untouched and in order.
pub fn delete_user(
    user_repo: &mut UserRepository,
    task_repo: &mut TaskRepository,
    user_id: u64,
) -> (r: Result<(), AppError>)
    requires
        old(user_repo).wf(),
        old(task_repo).wf(),
    ensures
        final(user_repo).wf(),
        final(task_repo).wf(),
        !old(user_repo).has_id(user_id) ==> r == Err::<(), AppError>(AppError::NotFound)
            && *final(user_repo) == *old(user_repo) && *final(task_repo) == *old(task_repo),
        old(user_repo).has_id(user_id) ==> r == Ok::<(), AppError>(()) && (exists|i: int|
            0 <= i < old(user_repo).users@.len() && (#[trigger] old(user_repo).users@[i].id)
                == user_id && final(user_repo).users@ =~= old(user_repo).users@.remove(i))
            && final(task_repo).tasks@ == tasks_of_others(old(task_repo).tasks@, user_id),
{
    let user = match user_repo.delete_user(user_id) {
        Some(user) => user,
        None => {
            return Err(AppError::NotFound);
        },
    };
    match task_repo.delete_all_for_user(user.id) {
        Ok(_) => Ok(()),
        Err(e) => Err(e),
    }
}

} // verus!
