//! The task kinds and states of the first-generation server: tasks were
//! single-host, so there was no rolled-up `Partial` state, and only capture
//! and deploy tasks existed.
use vstd::prelude::*;
use vstd::string::*;
use crate::domain::task::conversion_error;
use crate::shared::error::{AppError, AppErrorView};
use crate::shared::types as shared;
use crate::text::{to_lowercase, unicode_lowercase, all_ascii, ascii_lowercase};

verus! {

/// The kind of work a task performs.
#[derive(Debug, Clone, Copy, PartialEq, Eq, Structural)]
pub enum TaskType {
    Capture,
    Deploy,
}

/// The task type whose lowercase name is exactly `s`, if any.
pub open spec fn task_type_named(s: Seq<char>) -> Option<TaskType> {
    if s == "capture"@ {
        Some(TaskType::Capture)
    } else if s == "deploy"@ {
        Some(TaskType::Deploy)
    } else {
        None
    }
}

fn is(s: &String, lit: &str) -> (b: bool)
    ensures
        b == (s@ == lit@),
{
    *s == String::from_str(lit)
}

impl TaskType {
    /// Parses a task type by name, ignoring case. An unknown name is an
    /// `Internal("conversion error")`.
    pub fn from_string(value: String) -> (r: Result<TaskType, AppError>)
        ensures
            match r {
                Ok(t) => task_type_named(unicode_lowercase(value@)) == Some(t),
                Err(e) => task_type_named(unicode_lowercase(value@)) is None
                    && e@ == conversion_error(),
            },
            all_ascii(value@) ==> unicode_lowercase(value@) == ascii_lowercase(value@),
    {
        let lower = to_lowercase(value.as_str());
        if is(&lower, "capture") {
            Ok(TaskType::Capture)
        } else if is(&lower, "deploy") {
            Ok(TaskType::Deploy)
        } else {
            Err(AppError::Internal(String::from_str("conversion error")))
        }
    }
}

impl From<TaskType> for shared::TaskType {
    fn from(value: TaskType) -> (r: shared::TaskType) {
        match value {
            TaskType::Capture => shared::TaskType::Capture,
            TaskType::Deploy => shared::TaskType::Deploy,
        }
    }
}

impl vstd::std_specs::convert::FromSpecImpl<TaskType> for shared::TaskType {
    open spec fn obeys_from_spec() -> bool {
        true
    }

    open spec fn from_spec(value: TaskType) -> shared::TaskType {
        match value {
            TaskType::Capture => shared::TaskType::Capture,
            TaskType::Deploy => shared::TaskType::Deploy,
        }
    }
}

/// The progress of a single-host task.
#[derive(Debug, Clone, Copy, PartialEq, Eq, Structural)]
pub enum TaskState {
    Pending,
    Running,
    Done,
    Failed,
    Cancelled,
}

/// The task state whose lowercase name is exactly `s`, if any.
pub open spec fn task_state_named(s: Seq<char>) -> Option<TaskState> {
    if s == "pending"@ {
        Some(TaskState::Pending)
    } else if s == "running"@ {
        Some(TaskState::Running)
    } else if s == "done"@ {
        Some(TaskState::Done)
    } else if s == "failed"@ {
        Some(TaskState::Failed)
    } else if s == "cancelled"@ {
        Some(TaskState::Cancelled)
    } else {
        None
    }
}

impl TaskState {
    /// Parses a task state by name, ignoring case. An unknown name (including
    /// `partial`, which this server never stored) is an
    /// `Internal("conversion error")`.
    pub fn from_string(value: String) -> (r: Result<TaskState, AppError>)
        ensures
            match r {
                Ok(t) => task_state_named(unicode_lowercase(value@)) == Some(t),
                Err(e) => task_state_named(unicode_lowercase(value@)) is None
                    && e@ == conversion_error(),
            },
            all_ascii(value@) ==> unicode_lowercase(value@) == ascii_lowercase(value@),
    {
        let lower = to_lowercase(value.as_str());
        if is(&lower, "pending") {
            Ok(TaskState::Pending)
        } else if is(&lower, "running") {
            Ok(TaskState::Running)
        } else if is(&lower, "done") {
            Ok(TaskState::Done)
        } else if is(&lower, "failed") {
            Ok(TaskState::Failed)
        } else if is(&lower, "cancelled") {
            Ok(TaskState::Cancelled)
        } else {
            Err(AppError::Internal(String::from_str("conversion error")))
        }
    }

    pub fn is_pending(&self) -> (b: bool)
        ensures
            b == (*self is Pending),
    {
        matches!(self, TaskState::Pending)
    }

    pub fn is_running(&self) -> (b: bool)
        ensures
            b == (*self is Running),
    {
        matches!(self, TaskState::Running)
    }
}

} // verus!
