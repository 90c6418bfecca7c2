//! Multi-tenant task and time tracking: the timer state machine, the
//! role-based authorization rules and the ownership-scoped lifecycle of
//! projects, tasks, subtasks and time entries.

pub mod role;
pub mod model;
pub mod store;
pub mod timer;
pub mod tasks;
pub mod projects;
pub mod subtasks;
pub mod entries;
pub mod platform;
pub mod users;
pub mod guarantees;
pub mod reports;
pub mod admin;
pub mod order;
