//! Tasks: what a host is asked to do, the per-host progress rows and the
//! task-level status derived from them.
use vstd::prelude::*;
use vstd::string::*;
use crate::shared::error::{AppError, AppErrorView};
use crate::shared::types as shared;
use crate::text::{to_lowercase, unicode_lowercase, all_ascii, ascii_lowercase};
use crate::timestamp::Timestamp;

verus! {

/// The kind of work a task performs.
#[derive(Debug, Clone, Copy, PartialEq, Eq, Structural)]
pub enum TaskType {
    Capture,
    Deploy,
    Multicast,
    Reboot,
}

/// The lowercase name a task type is displayed and stored as.
pub open spec fn task_type_name(t: TaskType) -> Seq<char> {
    match t {
        TaskType::Capture => "capture"@,
        TaskType::Deploy => "deploy"@,
        TaskType::Multicast => "multicast"@,
        TaskType::Reboot => "reboot"@,
    }
}

/// The task type whose lowercase name is exactly `s`, if any.
pub open spec fn task_type_named(s: Seq<char>) -> Option<TaskType> {
    if s == "capture"@ {
        Some(TaskType::Capture)
    } else if s == "deploy"@ {
        Some(TaskType::Deploy)
    } else if s == "multicast"@ {
        Some(TaskType::Multicast)
    } else if s == "reboot"@ {
        Some(TaskType::Reboot)
    } else {
        None
    }
}

/// The error every failed name lookup produces.
pub open spec fn conversion_error() -> AppErrorView {
    AppErrorView::Internal("conversion error"@)
}

fn conversion_failure() -> (e: AppError)
    ensures
        e@ == conversion_error(),
{
    AppError::Internal(String::from_str("conversion error"))
}

fn is(s: &String, lit: &str) -> (b: bool)
    ensures
        b == (s@ == lit@),
{
    *s == String::from_str(lit)
}

impl TaskType {
    /// Renders the lowercase name, e.g. `multicast`.
    pub fn to_string(&self) -> (s: String)
        ensures
            s@ == task_type_name(*self),
    {
        match self {
            TaskType::Capture => String::from_str("capture"),
            TaskType::Deploy => String::from_str("deploy"),
            TaskType::Multicast => String::from_str("multicast"),
            TaskType::Reboot => String::from_str("reboot"),
        }
    }

    /// Looks a task type up by its already lowercased name.
    pub fn from_lowercase(lower: &String) -> (r: Result<TaskType, AppError>)
        ensures
            match r {
                Ok(t) => task_type_named(lower@) == Some(t),
                Err(e) => task_type_named(lower@) is None && e@ == conversion_error(),
            },
    {
        if is(lower, "capture") {
            Ok(TaskType::Capture)
        } else if is(lower, "deploy") {
            Ok(TaskType::Deploy)
        } else if is(lower, "multicast") {
            Ok(TaskType::Multicast)
        } else if is(lower, "reboot") {
            Ok(TaskType::Reboot)
        } else {
            Err(conversion_failure())
        }
    }

    /// Parses a task type by name, ignoring case (the value is lowercased
    /// first). An unknown name is an `Internal("conversion error")`.
    pub fn from_string(value: String) -> (r: Result<TaskType, AppError>)
        ensures
            match r {
                Ok(t) => task_type_named(unicode_lowercase(value@)) == Some(t),
                Err(e) => task_type_named(unicode_lowercase(value@)) is None
                    && e@ == conversion_error(),
            },
            all_ascii(value@) ==> unicode_lowercase(value@) == ascii_lowercase(value@),
    {
        let lower = to_lowercase(value.as_str());
        TaskType::from_lowercase(&lower)
    }

    pub fn is_capture(&self) -> (b: bool)
        ensures
            b == (*self is Capture),
    {
        matches!(self, TaskType::Capture)
    }

    pub fn is_deploy(&self) -> (b: bool)
        ensures
            b == (*self is Deploy),
    {
        matches!(self, TaskType::Deploy)
    }

    pub fn is_multicast(&self) -> (b: bool)
        ensures
            b == (*self is Multicast),
    {
        matches!(self, TaskType::Multicast)
    }

    pub fn is_reboot(&self) -> (b: bool)
        ensures
            b == (*self is Reboot),
    {
        matches!(self, TaskType::Reboot)
    }
}

/// The agent-facing task type of the same name.
pub open spec fn shared_task_type(t: TaskType) -> shared::TaskType {
    match t {
        TaskType::Capture => shared::TaskType::Capture,
        TaskType::Deploy => shared::TaskType::Deploy,
        TaskType::Multicast => shared::TaskType::Multicast,
        TaskType::Reboot => shared::TaskType::Reboot,
    }
}

impl From<TaskType> for shared::TaskType {
    fn from(value: TaskType) -> (r: shared::TaskType) {
        match value {
            TaskType::Capture => shared::TaskType::Capture,
            TaskType::Deploy => shared::TaskType::Deploy,
            TaskType::Multicast => shared::TaskType::Multicast,
            TaskType::Reboot => shared::TaskType::Reboot,
        }
    }
}

impl vstd::std_specs::convert::FromSpecImpl<TaskType> for shared::TaskType {
    open spec fn obeys_from_spec() -> bool {
        true
    }

    open spec fn from_spec(value: TaskType) -> shared::TaskType {
        shared_task_type(value)
    }
}

/// The progress of a task, per host or rolled up over all hosts.
#[derive(Debug, Clone, Copy, PartialEq, Eq, Structural)]
pub enum TaskState {
    Pending,
    Running,
    Done,
    Failed,
    Cancelled,
    /// Rollup-only: produced by `Task::aggregate_state`, never stored on a
    /// per-host row.
    Partial,
}

/// The lowercase name a task state is displayed and stored as.
pub open spec fn task_state_name(s: TaskState) -> Seq<char> {
    match s {
        TaskState::Pending => "pending"@,
        TaskState::Running => "running"@,
        TaskState::Done => "done"@,
        TaskState::Failed => "failed"@,
        TaskState::Cancelled => "cancelled"@,
        TaskState::Partial => "partial"@,
    }
}

/// The task state whose lowercase name is exactly `s`, if any.
pub open spec fn task_state_named(s: Seq<char>) -> Option<TaskState> {
    if s == "pending"@ {
        Some(TaskState::Pending)
    } else if s == "running"@ {
        Some(TaskState::Running)
    } else if s == "done"@ {
        Some(TaskState::Done)
    } else if s == "failed"@ {
        Some(TaskState::Failed)
    } else if s == "cancelled"@ {
        Some(TaskState::Cancelled)
    } else if s == "partial"@ {
        Some(TaskState::Partial)
    } else {
        None
    }
}

impl TaskState {
    /// Renders the lowercase name, e.g. `cancelled`.
    pub fn to_string(&self) -> (s: String)
        ensures
            s@ == task_state_name(*self),
    {
        match self {
            TaskState::Pending => String::from_str("pending"),
            TaskState::Running => String::from_str("running"),
            TaskState::Done => String::from_str("done"),
            TaskState::Failed => String::from_str("failed"),
            TaskState::Cancelled => String::from_str("cancelled"),
            TaskState::Partial => String::from_str("partial"),
        }
    }

    /// Looks a task state up by its already lowercased name.
    pub fn from_lowercase(lower: &String) -> (r: Result<TaskState, AppError>)
        ensures
            match r {
                Ok(t) => task_state_named(lower@) == Some(t),
                Err(e) => task_state_named(lower@) is None && e@ == conversion_error(),
            },
    {
        if is(lower, "pending") {
            Ok(TaskState::Pending)
        } else if is(lower, "running") {
            Ok(TaskState::Running)
        } else if is(lower, "done") {
            Ok(TaskState::Done)
        } else if is(lower, "failed") {
            Ok(TaskState::Failed)
        } else if is(lower, "cancelled") {
            Ok(TaskState::Cancelled)
        } else if is(lower, "partial") {
            Ok(TaskState::Partial)
        } else {
            Err(conversion_failure())
        }
    }

    /// Parses a task state by name, ignoring case. An unknown name is an
    /// `Internal("conversion error")`.
    pub fn from_string(value: String) -> (r: Result<TaskState, AppError>)
        ensures
            match r {
                Ok(t) => task_state_named(unicode_lowercase(value@)) == Some(t),
                Err(e) => task_state_named(unicode_lowercase(value@)) is None
                    && e@ == conversion_error(),
            },
            all_ascii(value@) ==> unicode_lowercase(value@) == ascii_lowercase(value@),
    {
        let lower = to_lowercase(value.as_str());
        TaskState::from_lowercase(&lower)
    }

    pub fn is_pending(&self) -> (b: bool)
        ensures
            b == (*self is Pending),
    {
        matches!(self, TaskState::Pending)
    }

    pub fn is_running(&self) -> (b: bool)
        ensures
            b == (*self is Running),
    {
        matches!(self, TaskState::Running)
    }

    pub fn is_done(&self) -> (b: bool)
        ensures
            b == (*self is Done),
    {
        matches!(self, TaskState::Done)
    }

    pub fn is_failed(&self) -> (b: bool)
        ensures
            b == (*self is Failed),
    {
        matches!(self, TaskState::Failed)
    }

    pub fn is_cancelled(&self) -> (b: bool)
        ensures
            b == (*self is Cancelled),
    {
        matches!(self, TaskState::Cancelled)
    }

    pub fn is_partial(&self) -> (b: bool)
        ensures
            b == (*self is Partial),
    {
        matches!(self, TaskState::Partial)
    }
}

/// One host's row of a task.
#[derive(Debug, Clone)]
pub struct TaskHost {
    pub host_id: i64,
    pub state: TaskState,
    pub error: Option<String>,
    pub started_at: Option<Timestamp>,
    pub finished_at: Option<Timestamp>,
}

/// A task with its per-host rows.
#[derive(Debug, Clone)]
pub struct Task {
    pub id: i64,
    pub task_type: TaskType,
    pub hosts: Vec<TaskHost>,
    pub image_id: Option<i64>,
    pub image_name: Option<String>,
    pub image_deleted: bool,
    pub created_at: Timestamp,
}

impl Task {
    /// A task from its stored row: the type is parsed by name (an unknown name
    /// is an `Internal("conversion error")`) and a non-zero deletion flag means
    /// the image was deleted.
    pub fn from_row(
        id: i64,
        task_type: String,
        image_id: Option<i64>,
        image_name: Option<String>,
        image_deleted: i64,
        created_at: Timestamp,
        hosts: Vec<TaskHost>,
    ) -> (r: Result<Task, AppError>)
        ensures
            match r {
                Ok(t) => {
                    &&& task_type_named(unicode_lowercase(task_type@)) == Some(t.task_type)
                    &&& t.id == id
                    &&& t.image_id == image_id
                    &&& t.image_name == image_name
                    &&& t.image_deleted == (image_deleted != 0)
                    &&& t.created_at == created_at
                    &&& t.hosts == hosts
                },
                Err(e) => task_type_named(unicode_lowercase(task_type@)) is None
                    && e@ == conversion_error(),
            },
    {
        let task_type = TaskType::from_string(task_type)?;
        Ok(Task {
            id,
            task_type,
            hosts,
            image_id,
            image_name,
            image_deleted: image_deleted != 0,
            created_at,
        })
    }
}

/// Whether the host row is still in flight (not yet terminal).
pub open spec fn in_flight(s: TaskState) -> bool {
    s is Pending || s is Running
}

/// Whether a state can be stored on a per-host row (every state but the
/// rollup-only `Partial`).
pub open spec fn is_row_state(s: TaskState) -> bool {
    !(s is Partial)
}

/// The task-level status derived from the per-host states:
/// no hosts left is `Cancelled`; if any host is in flight the task is
/// `Running` once some host has left `Pending`, else `Pending`; when every
/// host is terminal it is `Done` if all are done, `Cancelled` if all are
/// cancelled, `Failed` if none is done, and `Partial` otherwise.
pub open spec fn aggregate(states: Seq<TaskState>) -> TaskState {
    if states.len() == 0 {
        TaskState::Cancelled
    } else if exists|i: int| 0 <= i < states.len() && in_flight(#[trigger] states[i]) {
        if exists|i: int| 0 <= i < states.len() && !(#[trigger] states[i] is Pending) {
            TaskState::Running
        } else {
            TaskState::Pending
        }
    } else if forall|i: int| 0 <= i < states.len() ==> #[trigger] states[i] is Done {
        TaskState::Done
    } else if forall|i: int| 0 <= i < states.len() ==> #[trigger] states[i] is Cancelled {
        TaskState::Cancelled
    } else if !exists|i: int| 0 <= i < states.len() && #[trigger] states[i] is Done {
        TaskState::Failed
    } else {
        TaskState::Partial
    }
}

/// The states of a task's host rows, in row order.
pub open spec fn host_states(hosts: Seq<TaskHost>) -> Seq<TaskState> {
    hosts.map_values(|h: TaskHost| h.state)
}

impl Task {
    /// The state of each host row of the task, in row order.
    pub open spec fn states(&self) -> Seq<TaskState> {
        host_states(self.hosts@)
    }

    /// Derives the task-level status from the per-host states. `Partial` means
    /// some hosts finished while others failed or were cancelled. For a
    /// single-host task this equals that host's state.
    pub fn aggregate_state(&self) -> (s: TaskState)
        ensures
            s == aggregate(self.states()),
    {
        let n = self.hosts.len();
        if n == 0 {
            return TaskState::Cancelled;
        }
        let ghost states = self.states();
        let mut any_in_flight = false;
        let mut any_started = false;
        let mut all_done = true;
        let mut all_cancelled = true;
        let mut any_done = false;
        let mut i: usize = 0;
        while i < n
            invariant
                n == self.hosts@.len(),
                states == self.states(),
                states.len() == n,
                i <= n,
                any_in_flight == exists|k: int| 0 <= k < i && in_flight(#[trigger] states[k]),
                any_started == exists|k: int| 0 <= k < i && !(#[trigger] states[k] is Pending),
                all_done == forall|k: int| 0 <= k < i ==> #[trigger] states[k] is Done,
                all_cancelled == forall|k: int| 0 <= k < i ==> #[trigger] states[k] is Cancelled,
                any_done == exists|k: int| 0 <= k < i && #[trigger] states[k] is Done,
            decreases n - i,
        {
            let s = self.hosts[i].state;
            assert(states[i as int] == s);
            if s.is_pending() || s.is_running() {
                any_in_flight = true;
            }
            if !s.is_pending() {
                any_started = true;
            }
            if !s.is_done() {
                all_done = false;
            }
            if !s.is_cancelled() {
                all_cancelled = false;
            }
            if s.is_done() {
                any_done = true;
            }
            i = i + 1;
        }
        if any_in_flight {
            if any_started {
                TaskState::Running
            } else {
                TaskState::Pending
            }
        } else if all_done {
            TaskState::Done
        } else if all_cancelled {
            TaskState::Cancelled
        } else if !any_done {
            TaskState::Failed
        } else {
            TaskState::Partial
        }
    }
}

/// Every TaskType's name is plain lowercase ASCII and parses back to it, so
/// rendering then parsing gives the value back (`from_string` on ASCII input
/// lowercases the ASCII way).
pub proof fn lemma_task_type_round_trip(v: TaskType)
    ensures
        all_ascii(task_type_name(v)),
        ascii_lowercase(task_type_name(v)) == task_type_name(v),
        task_type_named(task_type_name(v)) == Some(v),
{
    reveal_strlit("capture");
    reveal_strlit("deploy");
    reveal_strlit("multicast");
    reveal_strlit("reboot");
    assert(ascii_lowercase(task_type_name(v)) =~= task_type_name(v));
    assert("capture"@.len() != "deploy"@.len());
    assert("capture"@.len() != "multicast"@.len());
    assert("capture"@.len() != "reboot"@.len());
    assert("deploy"@.len() != "multicast"@.len());
    assert("deploy"@[0] != "reboot"@[0]);
    assert("multicast"@.len() != "reboot"@.len());
}

/// Every TaskState's name is plain lowercase ASCII and parses back to it, so
/// rendering then parsing gives the value back (`from_string` on ASCII input
/// lowercases the ASCII way).
pub proof fn lemma_task_state_round_trip(v: TaskState)
    ensures
        all_ascii(task_state_name(v)),
        ascii_lowercase(task_state_name(v)) == task_state_name(v),
        task_state_named(task_state_name(v)) == Some(v),
{
    reveal_strlit("pending");
    reveal_strlit("running");
    reveal_strlit("done");
    reveal_strlit("failed");
    reveal_strlit("cancelled");
    reveal_strlit("partial");
    assert(ascii_lowercase(task_state_name(v)) =~= task_state_name(v));
    assert("pending"@[0] != "running"@[0]);
    assert("pending"@.len() != "done"@.len());
    assert("pending"@.len() != "failed"@.len());
    assert("pending"@.len() != "cancelled"@.len());
    assert("pending"@[1] != "partial"@[1]);
    assert("running"@.len() != "done"@.len());
    assert("running"@.len() != "failed"@.len());
    assert("running"@.len() != "cancelled"@.len());
    assert("running"@[0] != "partial"@[0]);
    assert("done"@.len() != "failed"@.len());
    assert("done"@.len() != "cancelled"@.len());
    assert("done"@.len() != "partial"@.len());
    assert("failed"@.len() != "cancelled"@.len());
    assert("failed"@.len() != "partial"@.len());
    assert("cancelled"@.len() != "partial"@.len());
}

/// A single-host task reports exactly that host's state (host rows never
/// hold the rollup-only `Partial`), and a single host never yields `Partial`.
pub proof fn lemma_single_host_aggregate(states: Seq<TaskState>)
    requires
        states.len() == 1,
    ensures
        is_row_state(states[0]) ==> aggregate(states) == states[0],
        aggregate(states) != TaskState::Partial,
{
    if in_flight(states[0]) {
        assert(in_flight(states[0]));
        if !(states[0] is Pending) {
            assert(!(states[0] is Pending));
        }
    } else if states[0] is Done {
        assert(states[0] is Done);
    } else if states[0] is Cancelled {
    } else {
        assert(!exists|i: int| 0 <= i < states.len() && #[trigger] states[i] is Done);
    }
}

/// A task is active (`Pending` or `Running`) exactly when some host row is
/// still pending or running; a task with no hosts left is terminal.
pub proof fn lemma_active_iff_some_host_in_flight(states: Seq<TaskState>)
    ensures
        in_flight(aggregate(states)) <==> exists|i: int| 0 <= i < states.len() && in_flight(
            #[trigger] states[i],
        ),
        states.len() == 0 ==> aggregate(states) == TaskState::Cancelled,
{
}

/// The meaning of each rolled-up status, over host rows that hold row states:
/// `Pending` when every host is pending, `Running` when something is in
/// flight and some host has started, `Done` when every host is done,
/// `Cancelled` when there are no hosts or all were cancelled, `Failed` when
/// every host is terminal, none is done and not all were cancelled, and
/// `Partial` when every host is terminal, some finished and some failed or were
/// cancelled.
pub proof fn lemma_aggregate_meaning(states: Seq<TaskState>)
    requires
        forall|i: int| 0 <= i < states.len() ==> is_row_state(#[trigger] states[i]),
    ensures
        aggregate(states) == TaskState::Pending <==> states.len() > 0 && forall|i: int|
            0 <= i < states.len() ==> #[trigger] states[i] is Pending,
        aggregate(states) == TaskState::Running <==> (exists|i: int|
            0 <= i < states.len() && in_flight(#[trigger] states[i])) && (exists|j: int|
            0 <= j < states.len() && !(#[trigger] states[j] is Pending)),
        aggregate(states) == TaskState::Done <==> states.len() > 0 && forall|i: int|
            0 <= i < states.len() ==> #[trigger] states[i] is Done,
        aggregate(states) == TaskState::Cancelled <==> forall|i: int|
            0 <= i < states.len() ==> #[trigger] states[i] is Cancelled,
        aggregate(states) == TaskState::Partial <==> (forall|i: int|
            0 <= i < states.len() ==> !in_flight(#[trigger] states[i])) && (exists|i: int|
            0 <= i < states.len() && #[trigger] states[i] is Done) && (exists|j: int|
            0 <= j < states.len() && (#[trigger] states[j] is Failed || states[j] is Cancelled)),
        aggregate(states) == TaskState::Failed <==> states.len() > 0 && (forall|i: int|
            0 <= i < states.len() ==> !in_flight(#[trigger] states[i]) && !(states[i] is Done))
            && (exists|j: int| 0 <= j < states.len() && #[trigger] states[j] is Failed),
{
    if states.len() > 0 {
        if forall|i: int| 0 <= i < states.len() ==> #[trigger] states[i] is Pending {
            assert(in_flight(states[0]));
        }
        if forall|i: int| 0 <= i < states.len() ==> #[trigger] states[i] is Done {
            assert(!in_flight(states[0]));
            assert(!(states[0] is Cancelled));
        }
        if forall|i: int| 0 <= i < states.len() ==> #[trigger] states[i] is Cancelled {
            assert(!in_flight(states[0]));
            assert(!(states[0] is Done));
        }
        if !(exists|i: int| 0 <= i < states.len() && in_flight(#[trigger] states[i])) {
            if !(forall|i: int| 0 <= i < states.len() ==> #[trigger] states[i] is Cancelled) {
                let k = choose|k: int| 0 <= k < states.len() && !(#[trigger] states[k] is Cancelled);
                assert(!in_flight(states[k]));
            }
            if !(forall|i: int| 0 <= i < states.len() ==> #[trigger] states[i] is Done) {
                let k = choose|k: int| 0 <= k < states.len() && !(#[trigger] states[k] is Done);
                assert(!in_flight(states[k]));
            }
        }
    }
}

/// The rolled-up status depends only on which states occur among the hosts,
/// not on their order or how often each occurs.
pub proof fn lemma_aggregate_depends_only_on_occurring_states(a: Seq<TaskState>, b: Seq<TaskState>)
    requires
        a.to_set() == b.to_set(),
    ensures
        aggregate(a) == aggregate(b),
{
    assert forall|s: TaskState| #[trigger] occurs(a, s) == occurs(b, s) by {
        if occurs(a, s) {
            let i = choose|i: int| 0 <= i < a.len() && a[i] == s;
            assert(a.to_set().contains(a[i]));
            assert(b.to_set().contains(s));
        }
        if occurs(b, s) {
            let j = choose|j: int| 0 <= j < b.len() && b[j] == s;
            assert(b.to_set().contains(b[j]));
            assert(a.to_set().contains(s));
        }
    }
    if b.len() > 0 {
        assert(occurs(b, b[0]));
        assert(occurs(a, b[0]));
    }
    if a.len() > 0 {
        assert(occurs(a, a[0]));
        assert(occurs(b, a[0]));
    }
    lemma_aggregate_by_occurrence(a);
    lemma_aggregate_by_occurrence(b);
}

/// Whether the state `s` occurs in `states`.
pub open spec fn occurs(states: Seq<TaskState>, s: TaskState) -> bool {
    exists|i: int| 0 <= i < states.len() && states[i] == s
}

/// `aggregate` restated over which states occur.
proof fn lemma_aggregate_by_occurrence(states: Seq<TaskState>)
    ensures
        aggregate(states) == (if states.len() == 0 {
            TaskState::Cancelled
        } else if occurs(states, TaskState::Pending) || occurs(states, TaskState::Running) {
            if occurs(states, TaskState::Running) || occurs(states, TaskState::Done) || occurs(
                states,
                TaskState::Failed,
            ) || occurs(states, TaskState::Cancelled) || occurs(states, TaskState::Partial) {
                TaskState::Running
            } else {
                TaskState::Pending
            }
        } else if !(occurs(states, TaskState::Failed) || occurs(states, TaskState::Cancelled)
            || occurs(states, TaskState::Partial)) {
            TaskState::Done
        } else if !(occurs(states, TaskState::Done) || occurs(states, TaskState::Failed) || occurs(
            states,
            TaskState::Partial,
        )) {
            TaskState::Cancelled
        } else if !occurs(states, TaskState::Done) {
            TaskState::Failed
        } else {
            TaskState::Partial
        }),
{
    let n = states.len();
    assert((exists|i: int| 0 <= i < n && in_flight(#[trigger] states[i])) <==> (occurs(
        states,
        TaskState::Pending,
    ) || occurs(states, TaskState::Running))) by {
        if exists|i: int| 0 <= i < n && in_flight(#[trigger] states[i]) {
            let i = choose|i: int| 0 <= i < n && in_flight(#[trigger] states[i]);
            assert(states[i] == TaskState::Pending || states[i] == TaskState::Running);
        }
    }
    assert((exists|i: int| 0 <= i < n && !(#[trigger] states[i] is Pending)) <==> (occurs(
        states,
        TaskState::Running,
    ) || occurs(states, TaskState::Done) || occurs(states, TaskState::Failed) || occurs(
        states,
        TaskState::Cancelled,
    ) || occurs(states, TaskState::Partial))) by {
        if exists|i: int| 0 <= i < n && !(#[trigger] states[i] is Pending) {
            let i = choose|i: int| 0 <= i < n && !(#[trigger] states[i] is Pending);
            assert(states[i] == TaskState::Running || states[i] == TaskState::Done || states[i]
                == TaskState::Failed || states[i] == TaskState::Cancelled || states[i]
                == TaskState::Partial);
        }
    }
    assert((forall|i: int| 0 <= i < n ==> #[trigger] states[i] is Done) <==> !(occurs(
        states,
        TaskState::Pending,
    ) || occurs(states, TaskState::Running) || occurs(states, TaskState::Failed) || occurs(
        states,
        TaskState::Cancelled,
    ) || occurs(states, TaskState::Partial))) by {
        if !(forall|i: int| 0 <= i < n ==> #[trigger] states[i] is Done) {
            let i = choose|i: int| 0 <= i < n && !(#[trigger] states[i] is Done);
            assert(states[i] == TaskState::Running || states[i] == TaskState::Pending || states[i]
                == TaskState::Failed || states[i] == TaskState::Cancelled || states[i]
                == TaskState::Partial);
        }
    }
    assert((forall|i: int| 0 <= i < n ==> #[trigger] states[i] is Cancelled) <==> !(occurs(
        states,
        TaskState::Pending,
    ) || occurs(states, TaskState::Running) || occurs(states, TaskState::Failed) || occurs(
        states,
        TaskState::Done,
    ) || occurs(states, TaskState::Partial))) by {
        if !(forall|i: int| 0 <= i < n ==> #[trigger] states[i] is Cancelled) {
            let i = choose|i: int| 0 <= i < n && !(#[trigger] states[i] is Cancelled);
            assert(states[i] == TaskState::Running || states[i] == TaskState::Pending || states[i]
                == TaskState::Failed || states[i] == TaskState::Done || states[i]
                == TaskState::Partial);
        }
    }
    assert((exists|i: int| 0 <= i < n && #[trigger] states[i] is Done) <==> occurs(
        states,
        TaskState::Done,
    )) by {
        if exists|i: int| 0 <= i < n && #[trigger] states[i] is Done {
            let i = choose|i: int| 0 <= i < n && #[trigger] states[i] is Done;
            assert(states[i] == TaskState::Done);
        }
    }
}

} // verus!
