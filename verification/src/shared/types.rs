//! The messages the server pushes to a connected agent.
use vstd::prelude::*;
use vstd::string::*;

verus! {

/// The kind of work an agent is asked to do.
#[derive(Debug, Clone, Copy, PartialEq, Eq, Structural)]
pub enum TaskType {
    Capture,
    Deploy,
    Multicast,
    Reboot,
}

/// The display name of a task type: the variant name itself.
pub open spec fn shared_task_type_name(t: TaskType) -> Seq<char> {
    match t {
        TaskType::Capture => "Capture"@,
        TaskType::Deploy => "Deploy"@,
        TaskType::Multicast => "Multicast"@,
        TaskType::Reboot => "Reboot"@,
    }
}

impl TaskType {
    /// Renders the task type as its variant name, e.g. `Multicast`.
    pub fn to_string(&self) -> (s: String)
        ensures
            s@ == shared_task_type_name(*self),
    {
        match self {
            TaskType::Capture => String::from_str("Capture"),
            TaskType::Deploy => String::from_str("Deploy"),
            TaskType::Multicast => String::from_str("Multicast"),
            TaskType::Reboot => String::from_str("Reboot"),
        }
    }

    pub fn is_capture(&self) -> (b: bool)
        ensures
            b == (*self is Capture),
    {
        matches!(self, TaskType::Capture)
    }

    pub fn is_deploy(&self) -> (b: bool)
        ensures
            b == (*self is Deploy),
    {
        matches!(self, TaskType::Deploy)
    }

    pub fn is_multicast(&self) -> (b: bool)
        ensures
            b == (*self is Multicast),
    {
        matches!(self, TaskType::Multicast)
    }

    pub fn is_reboot(&self) -> (b: bool)
        ensures
            b == (*self is Reboot),
    {
        matches!(self, TaskType::Reboot)
    }
}

/// A unit of work as the agent sees it.
#[derive(Debug, Clone, Copy, PartialEq, Eq, Structural)]
pub struct Task {
    pub id: i64,
    pub task_type: TaskType,
    pub image_id: Option<i64>,
}

impl Task {
    pub fn new(id: i64, task_type: TaskType, image_id: Option<i64>) -> (t: Task)
        ensures
            t == (Task { id, task_type, image_id }),
    {
        Task { id, task_type, image_id }
    }
}

/// An event pushed to an agent: a task to run, or the cancellation of a task.
#[derive(Debug, Clone, Copy, PartialEq, Eq, Structural)]
pub enum ServerEvent {
    Task(Task),
    Cancel(i64),
}

impl From<Task> for ServerEvent {
    fn from(t: Task) -> (e: ServerEvent) {
        ServerEvent::Task(t)
    }
}

impl vstd::std_specs::convert::FromSpecImpl<Task> for ServerEvent {
    open spec fn obeys_from_spec() -> bool {
        true
    }

    open spec fn from_spec(t: Task) -> ServerEvent {
        ServerEvent::Task(t)
    }
}

impl From<i64> for ServerEvent {
    fn from(id: i64) -> (e: ServerEvent) {
        ServerEvent::Cancel(id)
    }
}

impl vstd::std_specs::convert::FromSpecImpl<i64> for ServerEvent {
    open spec fn obeys_from_spec() -> bool {
        true
    }

    open spec fn from_spec(id: i64) -> ServerEvent {
        ServerEvent::Cancel(id)
    }
}

} // verus!
