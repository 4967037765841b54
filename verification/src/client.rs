//! The checks the agent-facing endpoints make before they act: who the agent
//! is, which task it is working on, and whether that task is in the state the
//! request needs.
use vstd::prelude::*;
use vstd::string::*;
use crate::domain::image::ImageStatus;
use crate::domain::task::{aggregate, Task, TaskState, TaskType};
use crate::shared::error::{AppError, AppErrorView};
use crate::text::{i64_from_text, parse_i64, push_signed_decimal, push_str, signed_decimal};

verus! {

/// Who an agent request comes from: its MAC address and, if it sent one, its
/// IP address.
#[derive(Debug)]
pub struct AgentInfo(pub (String, Option<String>));

impl AgentInfo {
    /// The agent identity from the `X-Agent-Mac` and `X-Agent-Ip` header
    /// values (each `None` when absent or not visible ASCII). A request
    /// without a MAC is refused with `InvalidArgument("missing mac")`.
    pub fn from_headers(mac: Option<String>, ip: Option<String>) -> (r: Result<AgentInfo, AppError>)
        ensures
            match mac {
                Some(m) => r is Ok && r->Ok_0.0.0 == m && r->Ok_0.0.1 == ip,
                None => r is Err && r->Err_0@ == AppErrorView::InvalidArgument("missing mac"@),
            },
    {
        match mac {
            Some(m) => Ok(AgentInfo((m, ip))),
            None => Err(AppError::invalid_argument("missing mac")),
        }
    }
}

fn message3(a: &str, b: &str, c: &str) -> (s: String)
    ensures
        s@ == a@ + b@ + c@,
{
    let mut s = String::from_str(a);
    push_str(&mut s, b);
    push_str(&mut s, c);
    s
}

fn message_with_id(a: &str, id: i64, c: &str) -> (s: String)
    ensures
        s@ == a@ + signed_decimal(id as int) + c@,
{
    let mut s = String::from_str(a);
    push_signed_decimal(&mut s, id);
    push_str(&mut s, c);
    s
}

/// The query with which an agent opens its event stream: the size of its
/// host's disk in bytes.
#[derive(Debug, Clone, Copy, PartialEq, Eq, Structural)]
pub struct StartStreamQuery {
    pub disk_size_bytes: u64,
}

/// The body of an agent's report that its task failed: what went wrong.
#[derive(Debug)]
pub struct MarkErrorPayload {
    pub error: String,
}

/// The task an agent is working on: the host's next task, or
/// `InvalidArgument("No active task found for host <mac>")` when it has none.
pub fn require_next_task(next: Option<Task>, mac: &str) -> (r: Result<Task, AppError>)
    ensures
        match next {
            Some(t) => r is Ok && r->Ok_0 == t,
            None => r is Err && r->Err_0@ == AppErrorView::InvalidArgument(
                "No active task found for host "@ + mac@,
            ),
        },
{
    match next {
        Some(t) => Ok(t),
        None => {
            let mut m = String::from_str("No active task found for host ");
            push_str(&mut m, mac);
            Err(AppError::InvalidArgument(m))
        },
    }
}

/// The outcome of matching a request for task `task_id` of kind `kind`
/// against the agent's next task: the task's image, or the refusal.
pub open spec fn task_check(task: Task, task_id: i64, kind: TaskType, kind_name: Seq<char>) -> Result<i64, AppErrorView> {
    match task.image_id {
        None => Err(AppErrorView::InvalidArgument("Task "@ + signed_decimal(task_id as int) + " is not valid"@)),
        Some(image_id) => if task.id != task_id || task.task_type != kind {
            Err(AppErrorView::InvalidArgument(
                "No "@ + kind_name + " task for task "@ + signed_decimal(task_id as int) + " found"@,
            ))
        } else {
            Ok(image_id)
        },
    }
}

fn check_task(task: &Task, task_id: i64, kind: TaskType, kind_name: &str) -> (r: Result<i64, AppError>)
    ensures
        match (r, task_check(*task, task_id, kind, kind_name@)) {
            (Ok(a), Ok(b)) => a == b,
            (Err(e), Err(v)) => e@ == v,
            _ => false,
        },
{
    match task.image_id {
        None => Err(AppError::InvalidArgument(message_with_id("Task ", task_id, " is not valid"))),
        Some(image_id) => if task.id != task_id || task.task_type != kind {
            let mut m = message3("No ", kind_name, " task for task ");
            push_signed_decimal(&mut m, task_id);
            push_str(&mut m, " found");
            Err(AppError::InvalidArgument(m))
        } else {
            Ok(image_id)
        },
    }
}

/// Checks that the agent's next task is the capture task `task_id` and
/// returns its image: a task without an image is `InvalidArgument("Task <id>
/// is not valid")`, any other task `InvalidArgument("No capture task for task
/// <id> found")`.
pub fn verify_capture_task(task: &Task, task_id: i64) -> (r: Result<i64, AppError>)
    ensures
        match (r, task_check(*task, task_id, TaskType::Capture, "capture"@)) {
            (Ok(a), Ok(b)) => a == b,
            (Err(e), Err(v)) => e@ == v,
            _ => false,
        },
{
    check_task(task, task_id, TaskType::Capture, "capture")
}

/// Checks that the agent's next task is the deploy task `task_id` and
/// returns its image, refusing as `verify_capture_task` does.
pub fn verify_deploy_task(task: &Task, task_id: i64) -> (r: Result<i64, AppError>)
    ensures
        match (r, task_check(*task, task_id, TaskType::Deploy, "deploy"@)) {
            (Ok(a), Ok(b)) => a == b,
            (Err(e), Err(v)) => e@ == v,
            _ => false,
        },
{
    check_task(task, task_id, TaskType::Deploy, "deploy")
}

/// Partition data may only be uploaded once the capture has started (its
/// partition table was uploaded): otherwise
/// `InvalidArgument("Task has not yet started")`.
pub fn check_upload_partition_data(task: &Task) -> (r: Result<(), AppError>)
    ensures
        aggregate(task.states()) == TaskState::Running <==> r is Ok,
        r is Err ==> r->Err_0@ == AppErrorView::InvalidArgument("Task has not yet started"@),
{
    if task.aggregate_state() != TaskState::Running {
        Err(AppError::invalid_argument("Task has not yet started"))
    } else {
        Ok(())
    }
}

/// The filesystem type and size of an uploaded partition, from the values of
/// the `X-Fstype` and `X-Partition-Size` headers (each `None` when absent or
/// not visible ASCII). Without a filesystem type the upload is refused with
/// `InvalidArgument("missing X-Fstype")`; without a size, or with one that is
/// not a decimal `i64`, with `InvalidArgument("missing X-Partition-Size")`.
pub fn partition_headers(fstype: Option<String>, size: Option<String>) -> (r: Result<(String, i64), AppError>)
    ensures
        match fstype {
            None => r is Err && r->Err_0@ == AppErrorView::InvalidArgument("missing X-Fstype"@),
            Some(f) => match (if size is Some { i64_from_text(size->0@) } else { None }) {
                Some(n) => r is Ok && r->Ok_0.0 == f && r->Ok_0.1 == n,
                None => r is Err && r->Err_0@ == AppErrorView::InvalidArgument("missing X-Partition-Size"@),
            },
        },
{
    let f = match fstype {
        Some(f) => f,
        None => {
            return Err(AppError::invalid_argument("missing X-Fstype"));
        },
    };
    let n = match &size {
        Some(text) => parse_i64(text.as_str()),
        None => None,
    };
    match n {
        Some(n) => Ok((f, n)),
        None => Err(AppError::invalid_argument("missing X-Partition-Size")),
    }
}

/// The partition table may only be uploaded before the capture starts:
/// otherwise `InvalidArgument("Task has already stared")`.
pub fn check_upload_partition_table(task: &Task) -> (r: Result<(), AppError>)
    ensures
        aggregate(task.states()) == TaskState::Pending <==> r is Ok,
        r is Err ==> r->Err_0@ == AppErrorView::InvalidArgument("Task has already stared"@),
{
    if task.aggregate_state() != TaskState::Pending {
        Err(AppError::invalid_argument("Task has already stared"))
    } else {
        Ok(())
    }
}

/// An image may only be downloaded when it is ready: otherwise
/// `FailedPrecondition("Image <id> is not ready")`.
pub fn check_image_ready(image_id: i64, status: ImageStatus) -> (r: Result<(), AppError>)
    ensures
        status == ImageStatus::Ready <==> r is Ok,
        r is Err ==> r->Err_0@ == AppErrorView::FailedPrecondition(
            "Image "@ + signed_decimal(image_id as int) + " is not ready"@,
        ),
{
    if status != ImageStatus::Ready {
        Err(AppError::FailedPrecondition(message_with_id("Image ", image_id, " is not ready")))
    } else {
        Ok(())
    }
}

/// What a report that task `task_id` finished or failed leads to: the image
/// whose status follows the task (for a capture task with an image).
pub open spec fn report_outcome(task: Task, task_id: i64, mac: Seq<char>) -> Result<Option<i64>, AppErrorView> {
    if task.id != task_id {
        Err(AppErrorView::InvalidArgument(
            "Task "@ + signed_decimal(task_id as int) + " is not the next task for host "@ + mac,
        ))
    } else if task.task_type == TaskType::Capture && task.image_id is Some {
        Ok(task.image_id)
    } else {
        Ok(None)
    }
}

/// Checks an agent's report that task `task_id` finished (or failed): it must
/// be the agent's next task (a host may report on its row whether or not it
/// was started). The result is the image
/// whose status is to be updated along with the task, if any: a capture
/// finishing marks its image ready, a capture failing marks it faulted.
pub fn check_task_report(task: &Task, task_id: i64, mac: &str) -> (r: Result<Option<i64>, AppError>)
    ensures
        match (r, report_outcome(*task, task_id, mac@)) {
            (Ok(a), Ok(b)) => a == b,
            (Err(e), Err(v)) => e@ == v,
            _ => false,
        },
{
    if task.id != task_id {
        let mut m = message_with_id("Task ", task_id, " is not the next task for host ");
        push_str(&mut m, mac);
        return Err(AppError::InvalidArgument(m));
    }
    if task.task_type == TaskType::Capture && task.image_id.is_some() {
        Ok(task.image_id)
    } else {
        Ok(None)
    }
}

/// Only a capture's report changes an image: a report that names an image to
/// update is for a capture task with that image, and a report on the
/// agent's next task of any other kind (deploy, multicast, reboot) updates
/// no image. A report on another task than the agent's next one is refused.
pub proof fn lemma_only_a_capture_report_touches_its_image(task: Task, task_id: i64, mac: Seq<char>)
    ensures
        forall|i: i64| report_outcome(task, task_id, mac) == Ok::<Option<i64>, AppErrorView>(Some(i))
            ==> task.task_type == TaskType::Capture && task.image_id == Some(i),
        task.id == task_id && task.task_type != TaskType::Capture ==> report_outcome(task, task_id, mac)
            == Ok::<Option<i64>, AppErrorView>(None),
        task.id == task_id && task.task_type == TaskType::Capture ==> report_outcome(task, task_id, mac)
            == Ok::<Option<i64>, AppErrorView>(task.image_id),
        task.id != task_id ==> report_outcome(task, task_id, mac) is Err,
{
}

} // verus!
