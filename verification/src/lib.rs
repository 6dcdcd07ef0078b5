//! A per-user task-tracking backend: users register and authenticate,
//! manage their own tasks, and receive a daily reminder digest for tasks
//! due that day.
//!
//! The crate holds the verified core: the credential and task stores with
//! their per-owner scoping, the signed session-token codec, the
//! authentication service, request validation, and the planning half of
//! the morning notification scheduler. Transport concerns (HTTP, SMTP,
//! password hashing, the clock) live outside and hand this crate plain
//! values.

pub mod account;
pub mod auth;
pub mod digits;
pub mod email;
pub mod model;
pub mod task_repository;
pub mod token;
pub mod user_repository;
pub mod validate;
