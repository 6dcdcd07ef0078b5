//! The authentication service and the session-verification step.
//!
//! Password hashing and verification are a capability of the caller
//! (`hash(password, secret) -> hash`, `verify(password, hash, secret) ->
//! bool`): the functions here take the hash, or the verification verdict,
//! as plain values and decide everything else — validation, persistence,
//! token issue, and identity resolution.

use vstd::prelude::*;

use crate::model::{AppError, CreateUser, TokenClaims, User};
use crate::token::{issue, token_of, verify, verify_spec};
use crate::user_repository::UserRepository;
use crate::validate::{valid_sign_up, validate_create_user};

verus! {

/// Signs a new user up: validates the request, then persists the email
/// with the password hash the caller computed. A duplicate email is
/// surfaced as a persistence failure, not a distinguished kind.
pub fn sign_up(repo: &mut UserRepository, new_user: &CreateUser, password_hash: String) -> (r:
    Result<(), AppError>)
    requires
        old(repo).wf(),
        old(repo).next_id < u64::MAX,
    ensures
        final(repo).wf(),
        !valid_sign_up(*new_user) ==> r == Err::<(), AppError>(AppError::InvalidInput)
            && *final(repo) == *old(repo),
        valid_sign_up(*new_user) && old(repo).has_email(new_user.email@) ==> r == Err::<
            (),
            AppError,
        >(AppError::PersistenceError) && *final(repo) == *old(repo),
        valid_sign_up(*new_user) && !old(repo).has_email(new_user.email@) ==> r == Ok::<
            (),
            AppError,
        >(()) && final(repo).users@ == old(repo).users@.push(
            (User {
                id: old(repo).next_id,
                email: new_user.email,
                password: password_hash,
            }),
        ),
{
    match validate_create_user(new_user) {
        Ok(_) => {},
        Err(e) => {
            return Err(e);
        },
    }
    repo.create_user(new_user.email.clone(), password_hash)
}

/// Signs a user in: resolves the email, and — given the caller's verdict
/// from checking the presented password against the stored hash — issues
/// a session token embedding the email. An unknown email and a failed
/// check both come back as the same authentication failure.
pub fn sign_in(repo: &UserRepository, email: &String, password_valid: bool, jwt_secret: &str) -> (r:
    Result<String, AppError>)
    ensures
        r matches Ok(t) ==> password_valid && repo.has_email(email@) && t@ == token_of(
            jwt_secret@,
            email@,
        ),
        r matches Err(e) ==> e == AppError::Unauthenticated && (!password_valid || !repo.has_email(
            email@,
        )),
{
    let user = match repo.find_by_email(email) {
        Some(user) => user,
        None => {
            return Err(AppError::Unauthenticated);
        },
    };
    if password_valid {
        let token = issue(jwt_secret, &TokenClaims { email: user.email });
        Ok(token)
    } else {
        Err(AppError::Unauthenticated)
    }
}

/// The session-verification step run before every protected handler:
/// checks the bearer token and resolves the embedded email to a stored
/// user. On success the handler receives a store-backed identity; on any
/// failure — malformed token, bad signature, unknown email — the request
/// is rejected as unauthenticated.
pub fn jwt_validator(repo: &UserRepository, jwt_secret: &str, bearer_token: &String) -> (r: Result<
    User,
    AppError,
>)
    ensures
        r matches Ok(u) ==> (exists|i: int|
            0 <= i < repo.users@.len() && (#[trigger] repo.users@[i]) == u) && (match verify_spec(
            jwt_secret@,
            bearer_token@,
        ) {
            Some(email) => u.email@ == email,
            None => false,
        }),
        r matches Err(e) ==> e == AppError::Unauthenticated && (match verify_spec(
            jwt_secret@,
            bearer_token@,
        ) {
            Some(email) => !repo.has_email(email),
            None => true,
        }),
{
    let claims = match verify(jwt_secret, bearer_token) {
        Some(claims) => claims,
        None => {
            return Err(AppError::Unauthenticated);
        },
    };
    match repo.find_by_email(&claims.email) {
        Some(user) => Ok(user),
        None => Err(AppError::Unauthenticated),
    }
}

/// After a successful sign-up the store holds the new user, any email
/// lookup for that address finds exactly that user, and a session token
/// issued for the address verifies back to it unchanged. The password
/// leg — that the stored hash accepts the original password — belongs to
/// the hashing capability, whose verdict `sign_in` takes as an argument.
pub proof fn signup_then_signin_yields_email(users: Seq<User>, u: User, jwt_secret: Seq<char>)
    requires
        forall|i: int| 0 <= i < users.len() ==> (#[trigger] users[i].email@) != u.email@,
    ensures
        users.push(u)[users.len() as int] == u,
        forall|i: int|
            0 <= i < users.push(u).len() && (#[trigger] users.push(u)[i].email@) == u.email@
                ==> users.push(u)[i] == u,
        verify_spec(jwt_secret, token_of(jwt_secret, u.email@)) == Some(u.email@),
{
    crate::token::issued_token_verifies(jwt_secret, u.email@);
}

} // verus!
