//! Data model: users, tasks, calendar dates, request payloads, and the
//! error taxonomy shared by every component.

use vstd::prelude::*;

verus! {

/// The lifecycle state of a task. A task is created as `ToDo` and may
/// move to any other state at any time.
#[derive(Clone, Copy, PartialEq, Eq, Structural, Debug)]
pub enum TaskStatus {
    ToDo,
    InProgress,
    Done,
}

/// The textual name under which a status is persisted and rendered.
pub open spec fn status_name(s: TaskStatus) -> Seq<char> {
    match s {
        TaskStatus::ToDo => "ToDo"@,
        TaskStatus::InProgress => "InProgress"@,
        TaskStatus::Done => "Done"@,
    }
}

impl TaskStatus {
    /// The textual name of the status, as stored and as shown in digests.
    pub fn name(&self) -> (r: &'static str)
        ensures
            r@ == status_name(*self),
    {
        match self {
            TaskStatus::ToDo => "ToDo",
            TaskStatus::InProgress => "InProgress",
            TaskStatus::Done => "Done",
        }
    }
}

/// A calendar date, with no time of day attached.
#[derive(Clone, Copy, PartialEq, Eq, Structural, Debug)]
pub struct Date {
    pub year: u16,
    pub month: u8,
    pub day: u8,
}

impl Date {
    /// A date the crate will accept: four-digit year, plausible month and day.
    pub open spec fn valid(self) -> bool {
        &&& 1 <= self.month <= 12
        &&& 1 <= self.day <= 31
        &&& self.year <= 9999
    }

    /// Strict calendar order.
    pub open spec fn spec_before(self, other: Date) -> bool {
        ||| self.year < other.year
        ||| (self.year == other.year && self.month < other.month)
        ||| (self.year == other.year && self.month == other.month && self.day < other.day)
    }

    /// Whether `self` falls strictly before `other`.
    pub fn is_before(&self, other: &Date) -> (r: bool)
        ensures
            r == self.spec_before(*other),
    {
        if self.year != other.year {
            self.year < other.year
        } else if self.month != other.month {
            self.month < other.month
        } else {
            self.day < other.day
        }
    }
}

/// A stored user identity: unique numeric id, unique email, and the
/// opaque password hash produced at sign-up. The plaintext password is
/// never stored.
#[derive(Debug)]
pub struct User {
    pub id: u64,
    pub email: String,
    pub password: String,
}

impl Clone for User {
    fn clone(&self) -> (r: Self)
        ensures
            r == *self,
    {
        User { id: self.id, email: self.email.clone(), password: self.password.clone() }
    }
}

/// A stored task, owned by exactly one user through `user_id`.
#[derive(Debug)]
pub struct Task {
    pub id: u64,
    pub user_id: u64,
    pub title: String,
    pub description: String,
    pub status: TaskStatus,
    pub due_date: Date,
}

impl Clone for Task {
    fn clone(&self) -> (r: Self)
        ensures
            r == *self,
    {
        Task {
            id: self.id,
            user_id: self.user_id,
            title: self.title.clone(),
            description: self.description.clone(),
            status: self.status,
            due_date: self.due_date,
        }
    }
}

/// Sign-up request payload.
pub struct CreateUser {
    pub email: String,
    pub password: String,
}

/// Task-creation request payload.
pub struct CreateTask {
    pub title: String,
    pub description: String,
    pub due_date: Date,
}

/// Email-change request payload.
pub struct UpdateUser {
    pub email: String,
}

/// Status-change request payload.
pub struct UpdateTaskStatus {
    pub new_status: TaskStatus,
}

/// The claim set embedded in a session token: only the user's email.
pub struct TokenClaims {
    pub email: String,
}

impl Clone for TokenClaims {
    fn clone(&self) -> (r: Self)
        ensures
            r == *self,
    {
        TokenClaims { email: self.email.clone() }
    }
}

/// A task as handed back to clients: the id rendered as text.
pub struct TaskPreview {
    pub id: String,
    pub title: String,
    pub description: String,
    pub status: TaskStatus,
    pub due_date: Date,
}

impl TaskPreview {
    /// The client view of a stored task, its id rendered in decimal.
    pub fn of_task(t: &Task) -> (r: TaskPreview)
        ensures
            r.id@ == crate::digits::dec_str(t.id as nat),
            r.title == t.title,
            r.description == t.description,
            r.status == t.status,
            r.due_date == t.due_date,
    {
        TaskPreview {
            id: crate::digits::u64_to_string(t.id),
            title: t.title.clone(),
            description: t.description.clone(),
            status: t.status,
            due_date: t.due_date,
        }
    }
}

/// The error taxonomy of the whole system.
#[derive(Clone, Copy, PartialEq, Eq, Structural, Debug)]
pub enum AppError {
    /// Missing or invalid token, unknown identity, or bad credentials.
    Unauthenticated,
    /// A request payload failed validation.
    InvalidInput,
    /// A task identifier that is not well formed.
    InvalidIdentifier,
    /// A well-formed lookup that matched no row.
    NotFound,
    /// The store rejected a write (for instance a duplicate email).
    PersistenceError,
    /// The mail transport failed; scheduler-local only.
    DeliveryError,
}

} // verus!
