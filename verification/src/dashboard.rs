//! The decisions behind the dashboard's operations on hosts, images and
//! tasks: what may be deleted, cancelled or retried, and what follows.
use vstd::prelude::*;
use vstd::string::*;
use crate::domain::task::{aggregate, in_flight, Task, TaskHost, TaskState, TaskType};
use crate::shared::error::{AppError, AppErrorView};
use crate::text::{push_signed_decimal, push_str, signed_decimal};

verus! {

fn message_with_id(a: &str, id: i64, c: &str) -> (s: String)
    ensures
        s@ == a@ + signed_decimal(id as int) + c@,
{
    let mut s = String::from_str(a);
    push_signed_decimal(&mut s, id);
    push_str(&mut s, c);
    s
}

/// A host may be deleted only when it has no active task; otherwise
/// `InvalidArgument("Host with id <id> has active tasks, finish or cancel
/// those first")`. `next` is the host's next task, if any.
pub fn check_host_deletable(id: i64, next: &Option<Task>) -> (r: Result<(), AppError>)
    ensures
        next is None <==> r is Ok,
        r is Err ==> r->Err_0@ == AppErrorView::InvalidArgument(
            "Host with id "@ + signed_decimal(id as int) + " has active tasks, finish or cancel those first"@,
        ),
{
    if next.is_some() {
        Err(AppError::InvalidArgument(
            message_with_id("Host with id ", id, " has active tasks, finish or cancel those first"),
        ))
    } else {
        Ok(())
    }
}

/// What cancelling a task involves besides cancelling its host rows: the
/// image to mark faulted (a cancelled capture leaves its image unusable) and
/// the hosts to tell about the cancellation.
#[derive(Debug)]
pub struct CancelPlan {
    pub fault_image: Option<i64>,
    pub notify_hosts: Vec<i64>,
}

/// Whether a host row is still to be worked on or being worked on.
pub open spec fn open_row(h: TaskHost) -> bool {
    h.state == TaskState::Pending || h.state == TaskState::Running
}

/// The hosts to tell about a cancellation: those whose row was pending or
/// running, in row order.
pub open spec fn hosts_to_notify(task: Task) -> Seq<i64> {
    task.hosts@.filter(|h: TaskHost| open_row(h)).map_values(|h: TaskHost| h.host_id)
}

/// The reason recorded on an image whose capture was cancelled.
pub open spec fn cancelled_capture_reason() -> Seq<char> {
    "Capture task was cancelled by user"@
}

/// The reason recorded on an image whose capture was cancelled.
pub fn cancelled_capture_message() -> (m: String)
    ensures
        m@ == cancelled_capture_reason(),
{
    String::from_str("Capture task was cancelled by user")
}

/// Plans the cancellation of `task`. Only a pending or running task can be
/// cancelled; otherwise `InvalidArgument("cannot cancel task <id>, task is
/// not pending or running")`.
pub fn plan_cancel(task: &Task) -> (r: Result<CancelPlan, AppError>)
    ensures
        (aggregate(task.states()) == TaskState::Pending || aggregate(task.states())
            == TaskState::Running) <==> r is Ok,
        r is Err ==> r->Err_0@ == AppErrorView::InvalidArgument(
            "cannot cancel task "@ + signed_decimal(task.id as int) + ", task is not pending or running"@,
        ),
        r is Ok ==> r->Ok_0.fault_image == (if task.task_type == TaskType::Capture {
            task.image_id
        } else {
            None
        }),
        r is Ok ==> r->Ok_0.notify_hosts@ == hosts_to_notify(*task),
{
    let state = task.aggregate_state();
    if !(state.is_pending() || state.is_running()) {
        return Err(AppError::InvalidArgument(
            message_with_id("cannot cancel task ", task.id, ", task is not pending or running"),
        ));
    }
    let fault_image = if task.task_type == TaskType::Capture {
        task.image_id
    } else {
        None
    };
    let ghost pred = |h: TaskHost| open_row(h);
    let mut notify_hosts: Vec<i64> = Vec::new();
    let n = task.hosts.len();
    let mut i: usize = 0;
    while i < n
        invariant
            n == task.hosts@.len(),
            i <= n,
            pred == (|h: TaskHost| open_row(h)),
            notify_hosts@ == task.hosts@.take(i as int).filter(pred).map_values(|h: TaskHost| h.host_id),
        decreases n - i,
    {
        let h = &task.hosts[i];
        let flying = h.state == TaskState::Pending || h.state == TaskState::Running;
        proof {
            assert(task.hosts@.take(i + 1) =~= task.hosts@.take(i as int).push(task.hosts@[i as int]));
            task.hosts@.take(i as int).lemma_filter_push(task.hosts@[i as int], pred);
        }
        let ghost before = task.hosts@.take(i as int).filter(pred);
        if flying {
            notify_hosts.push(h.host_id);
            assert(before.push(task.hosts@[i as int]).map_values(|h: TaskHost| h.host_id)
                =~= before.map_values(|h: TaskHost| h.host_id).push(task.hosts@[i as int].host_id));
        }
        assert(notify_hosts@ =~= task.hosts@.take(i + 1).filter(pred).map_values(|h: TaskHost| h.host_id));
        i = i + 1;
    }
    assert(task.hosts@.take(n as int) =~= task.hosts@);
    Ok(CancelPlan { fault_image, notify_hosts })
}

/// The refusal, if any, of a retry of `task`: only a task with failed or
/// cancelled rows (failed, cancelled or partial) can be retried, and only
/// while it still has hosts and an image that was not deleted.
pub open spec fn retry_refusal(task: Task) -> Option<Seq<char>> {
    let s = aggregate(task.states());
    let id = signed_decimal(task.id as int);
    if !(s == TaskState::Cancelled || s == TaskState::Failed || s == TaskState::Partial) {
        Some("cannot retry task "@ + id + ", task is not failed or cancelled"@)
    } else if task.hosts@.len() == 0 {
        Some("cannot retry task "@ + id + ", hosts are deleted"@)
    } else if task.image_id is None || task.image_deleted {
        Some("cannot retry task "@ + id + ", image is deleted"@)
    } else {
        None
    }
}

/// Checks that `task` can be retried. On success the result says whether
/// the multicast sender must be told about it (a multicast task).
pub fn plan_retry(task: &Task) -> (r: Result<bool, AppError>)
    ensures
        match retry_refusal(*task) {
            Some(m) => r is Err && r->Err_0@ == AppErrorView::InvalidArgument(m),
            None => r == Ok::<bool, AppError>(task.task_type == TaskType::Multicast),
        },
{
    let state = task.aggregate_state();
    if !(state.is_cancelled() || state.is_failed() || state.is_partial()) {
        return Err(AppError::InvalidArgument(
            message_with_id("cannot retry task ", task.id, ", task is not failed or cancelled"),
        ));
    }
    if task.hosts.len() == 0 {
        return Err(AppError::InvalidArgument(
            message_with_id("cannot retry task ", task.id, ", hosts are deleted"),
        ));
    }
    if task.image_id.is_none() || task.image_deleted {
        return Err(AppError::InvalidArgument(
            message_with_id("cannot retry task ", task.id, ", image is deleted"),
        ));
    }
    Ok(task.task_type == TaskType::Multicast)
}

/// Only a task that went wrong can be retried. A task whose rolled-up state
/// is done, pending or running (in particular one whose every host row is
/// done) is refused with "cannot retry task <id>, task is not failed or
/// cancelled"; a retry that is accepted is of a task whose rolled-up state is
/// failed, cancelled or partial. Such a task, while it still has hosts and
/// an image that was not deleted, is accepted.
pub proof fn lemma_retry_only_after_failure(task: Task)
    ensures
        aggregate(task.states()) == TaskState::Done || aggregate(task.states()) == TaskState::Pending
            || aggregate(task.states()) == TaskState::Running ==> retry_refusal(task) == Some(
            "cannot retry task "@ + signed_decimal(task.id as int) + ", task is not failed or cancelled"@,
        ),
        task.hosts@.len() > 0 && (forall|k: int| 0 <= k < task.hosts@.len() ==> (#[trigger] task.hosts@[k]).state
            == TaskState::Done) ==> retry_refusal(task) == Some(
            "cannot retry task "@ + signed_decimal(task.id as int) + ", task is not failed or cancelled"@,
        ),
        retry_refusal(task) is None ==> aggregate(task.states()) == TaskState::Failed || aggregate(task.states())
            == TaskState::Cancelled || aggregate(task.states()) == TaskState::Partial,
        (aggregate(task.states()) == TaskState::Failed || aggregate(task.states()) == TaskState::Cancelled
            || aggregate(task.states()) == TaskState::Partial) && task.hosts@.len() > 0 && task.image_id is Some
            && !task.image_deleted ==> retry_refusal(task) is None,
{
    let states = task.states();
    if task.hosts@.len() > 0 && (forall|k: int| 0 <= k < task.hosts@.len() ==> (#[trigger] task.hosts@[k]).state
        == TaskState::Done) {
        assert forall|i: int| 0 <= i < states.len() implies #[trigger] states[i] is Done by {
            assert(states[i] == task.hosts@[i].state);
        }
        assert(!exists|i: int| 0 <= i < states.len() && in_flight(#[trigger] states[i])) by {
            if exists|i: int| 0 <= i < states.len() && in_flight(#[trigger] states[i]) {
                let i = choose|i: int| 0 <= i < states.len() && in_flight(#[trigger] states[i]);
                assert(states[i] is Done);
            }
        }
        assert(aggregate(states) == TaskState::Done);
    }
}

/// After a retry, a host is sent the task only when the task is that host's
/// next task: an older task the host still has to finish goes first.
pub fn should_push_retried(next: &Option<Task>, task_id: i64) -> (b: bool)
    ensures
        b == (next is Some && next->0.id == task_id),
{
    match next {
        Some(t) => t.id == task_id,
        None => false,
    }
}

/// Host `id` has a pending or running row in the task.
pub open spec fn has_open_row(task: Task, id: i64) -> bool {
    exists|k: int| 0 <= k < task.hosts@.len() && open_row(#[trigger] task.hosts@[k]) && task.hosts@[k].host_id == id
}

/// A cancellation reaches exactly the hosts whose row was still open: every
/// host told has a pending or running row in the task, and the host of every
/// pending or running row is told.
pub proof fn lemma_cancel_reaches_open_rows(task: Task)
    ensures
        forall|j: int| 0 <= j < hosts_to_notify(task).len() ==> has_open_row(
            task,
            #[trigger] hosts_to_notify(task)[j],
        ),
        forall|k: int| 0 <= k < task.hosts@.len() && open_row(#[trigger] task.hosts@[k])
            ==> hosts_to_notify(task).contains(task.hosts@[k].host_id),
{
    let pred = |h: TaskHost| open_row(h);
    let open = task.hosts@.filter(pred);
    assert forall|j: int| 0 <= j < hosts_to_notify(task).len() implies has_open_row(
        task,
        #[trigger] hosts_to_notify(task)[j],
    ) by {
        task.hosts@.lemma_filter_pred(pred, j);
        assert(open.contains(open[j]));
        task.hosts@.lemma_filter_contains_rev(pred, open[j]);
        let k = choose|k: int| 0 <= k < task.hosts@.len() && task.hosts@[k] == open[j];
        assert(open_row(task.hosts@[k]));
        assert(task.hosts@[k].host_id == hosts_to_notify(task)[j]);
    }
    assert forall|k: int| 0 <= k < task.hosts@.len() && open_row(#[trigger] task.hosts@[k])
        implies hosts_to_notify(task).contains(task.hosts@[k].host_id) by {
        task.hosts@.lemma_filter_contains(pred, k);
        let j = choose|j: int| 0 <= j < open.len() && open[j] == task.hosts@[k];
        assert(hosts_to_notify(task)[j] == task.hosts@[k].host_id);
    }
}

} // verus!
