use vstd::prelude::*;
use crate::role::Role;

verus! {

/// Seconds since the Unix epoch, UTC.
pub type Timestamp = i64;

/// A copy of `o`, equal to it.
pub fn copy_opt(o: &Option<String>) -> (r: Option<String>)
    ensures
        r == *o,
{
    match o {
        Some(s) => Some(s.clone()),
        None => None,
    }
}

/// Progress of a task; `InProgress` is what a running timer sets.
#[derive(Clone, Copy, Debug, PartialEq, Eq, Structural)]
pub enum TaskStatus {
    Pending,
    InProgress,
    Completed,
}

/// The textual name of a status.
pub open spec fn status_name(s: TaskStatus) -> Seq<char> {
    match s {
        TaskStatus::Pending => "pending"@,
        TaskStatus::InProgress => "in_progress"@,
        TaskStatus::Completed => "completed"@,
    }
}

/// The status that a name denotes, if any.
pub open spec fn status_of_name(s: Seq<char>) -> Option<TaskStatus> {
    if s == "pending"@ {
        Some(TaskStatus::Pending)
    } else if s == "in_progress"@ {
        Some(TaskStatus::InProgress)
    } else if s == "completed"@ {
        Some(TaskStatus::Completed)
    } else {
        None
    }
}

impl TaskStatus {
    /// Reads a status from its name; any other text is no status.
    pub fn parse(s: &str) -> (r: Option<TaskStatus>)
        ensures
            r == status_of_name(s@),
    {
        let t = s.to_string();
        if t == String::from_str("pending") {
            Some(TaskStatus::Pending)
        } else if t == String::from_str("in_progress") {
            Some(TaskStatus::InProgress)
        } else if t == String::from_str("completed") {
            Some(TaskStatus::Completed)
        } else {
            None
        }
    }

    /// The name of the status.
    pub fn as_str(&self) -> (r: String)
        ensures
            r@ == status_name(*self),
    {
        match self {
            TaskStatus::Pending => String::from_str("pending"),
            TaskStatus::InProgress => String::from_str("in_progress"),
            TaskStatus::Completed => String::from_str("completed"),
        }
    }
}

/// An account. The password hash never leaves the library through a listing.
#[derive(Clone, Debug)]
pub struct User {
    pub id: String,
    pub username: String,
    pub full_name: String,
    pub role: Role,
    pub password_hash: String,
    pub created_at: Timestamp,
    pub force_change_password: bool,
}

impl User {
    pub fn copy(&self) -> (r: User)
        ensures
            r == *self,
    {
        User {
            id: self.id.clone(),
            username: self.username.clone(),
            full_name: self.full_name.clone(),
            role: self.role,
            password_hash: self.password_hash.clone(),
            created_at: self.created_at,
            force_change_password: self.force_change_password,
        }
    }
}

/// A named group of tasks, owned by one user.
#[derive(Clone, Debug)]
pub struct Project {
    pub id: String,
    pub name: String,
    pub color: String,
    pub description: String,
    pub created_at: Timestamp,
    pub user_id: String,
}

impl Project {
    pub fn copy(&self) -> (r: Project)
        ensures
            r == *self,
    {
        Project {
            id: self.id.clone(),
            name: self.name.clone(),
            color: self.color.clone(),
            description: self.description.clone(),
            created_at: self.created_at,
            user_id: self.user_id.clone(),
        }
    }
}

/// A unit of work, owned by one user and optionally filed under a project.
#[derive(Clone, Debug)]
pub struct Task {
    pub id: String,
    pub title: String,
    pub description: String,
    pub category: String,
    pub status: TaskStatus,
    pub priority: String,
    pub user_id: String,
    pub start_date: Option<String>,
    pub due_date: Option<String>,
    pub created_at: Timestamp,
    pub updated_at: Timestamp,
    pub project_id: Option<String>,
}

impl Task {
    pub fn copy(&self) -> (r: Task)
        ensures
            r == *self,
    {
        Task {
            id: self.id.clone(),
            title: self.title.clone(),
            description: self.description.clone(),
            category: self.category.clone(),
            status: self.status,
            priority: self.priority.clone(),
            user_id: self.user_id.clone(),
            start_date: copy_opt(&self.start_date),
            due_date: copy_opt(&self.due_date),
            created_at: self.created_at,
            updated_at: self.updated_at,
            project_id: copy_opt(&self.project_id),
        }
    }
}

/// A checklist item of a task.
#[derive(Clone, Debug)]
pub struct Subtask {
    pub id: String,
    pub task_id: String,
    pub title: String,
    pub completed: bool,
    pub position: i32,
    pub created_at: Timestamp,
    pub user_id: String,
}

impl Subtask {
    pub fn copy(&self) -> (r: Subtask)
        ensures
            r == *self,
    {
        Subtask {
            id: self.id.clone(),
            task_id: self.task_id.clone(),
            title: self.title.clone(),
            completed: self.completed,
            position: self.position,
            created_at: self.created_at,
            user_id: self.user_id.clone(),
        }
    }
}

/// A closed interval of work on a task.
#[derive(Clone, Debug)]
pub struct TimeEntry {
    pub id: String,
    pub task_id: String,
    pub start_time: Timestamp,
    pub end_time: Option<Timestamp>,
    pub duration_minutes: i64,
    pub notes: String,
    pub created_at: Timestamp,
    pub user_id: String,
}

impl TimeEntry {
    pub fn copy(&self) -> (r: TimeEntry)
        ensures
            r == *self,
    {
        TimeEntry {
            id: self.id.clone(),
            task_id: self.task_id.clone(),
            start_time: self.start_time,
            end_time: self.end_time,
            duration_minutes: self.duration_minutes,
            notes: self.notes.clone(),
            created_at: self.created_at,
            user_id: self.user_id.clone(),
        }
    }
}

/// The running interval of a user; at most one per user.
#[derive(Clone, Debug)]
pub struct ActiveTimer {
    pub id: String,
    pub task_id: String,
    pub start_time: Timestamp,
    pub notes: String,
    pub created_at: Timestamp,
    pub user_id: String,
}

impl ActiveTimer {
    pub fn copy(&self) -> (r: ActiveTimer)
        ensures
            r == *self,
    {
        ActiveTimer {
            id: self.id.clone(),
            task_id: self.task_id.clone(),
            start_time: self.start_time,
            notes: self.notes.clone(),
            created_at: self.created_at,
            user_id: self.user_id.clone(),
        }
    }
}

/// The verified identity of the caller of a request.
#[derive(Clone, Debug)]
pub struct AuthClaims {
    /// The caller's user id.
    pub sub: String,
    pub role: Role,
    /// Expiry, in seconds since the Unix epoch.
    pub exp: u64,
}

} // verus!
