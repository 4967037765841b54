//! The multicast sender's bookkeeping. Only one multicast session runs at a
//! time: a single slot records the worker that drains the queue of multicast
//! tasks, and the decisions around that slot (spawn a worker or queue the
//! notification, which running send a cancellation stops, whether a worker
//! whose queue ran dry may exit) are made here. The transfer plan of a task
//! (which file goes out on which port, and how far along the whole task is)
//! is computed here too.
use vstd::prelude::*;
use vstd::string::*;
use crate::domain::image::ImagePartition;
use crate::domain::task::{aggregate, Task, TaskState, TaskType};
use crate::service::image::{ImageService, under, relative_table_path, relative_partition_path};
use crate::shared::error::{AppError, AppErrorView};
use crate::shared::multicast::{get_multicast_port, multicast_port};
use crate::domain::host::Host;
use crate::net::IpAddress;
use crate::text::{push_signed_decimal, push_str, signed_decimal};
use std::collections::HashMap;

verus! {

broadcast use vstd::std_specs::hash::group_hash_axioms;

// ---------------------------------------------------------------------------
// The worker slot.
// ---------------------------------------------------------------------------

/// The worker currently occupying the slot: the task it is sending, the
/// handle of the spawned worker, the token that cancels the current send,
/// whether more work was announced while it ran, and its generation.
pub struct RunningTask<H, C> {
    pub id: i64,
    pub handle: H,
    pub cancel: C,
    pub pending: bool,
    pub generation: u64,
}

/// What the slot records of its occupant.
pub struct Occupant<C> {
    pub id: i64,
    pub cancel: C,
    pub pending: bool,
    pub generation: u64,
}

/// The state of the slot: its occupant, if any, and the generation the next
/// worker will get.
pub struct SlotState<C> {
    pub occupant: Option<Occupant<C>>,
    pub next_generation: u64,
}

/// What `notify_new` asks of its caller.
#[derive(Debug, Clone, Copy, PartialEq, Eq, Structural)]
pub enum NotifyDecision {
    /// A worker is live and was told that more work arrived; nothing to spawn.
    Queued,
    /// No worker is live: spawn one with this generation and install it.
    Spawn { generation: u64 },
}

/// Whether a worker whose queue ran dry keeps going or exits.
#[derive(Debug, Clone, Copy, PartialEq, Eq, Structural)]
pub enum IdleDecision {
    /// Work was announced meanwhile: poll the queue again.
    Continue,
    /// Nothing was announced: the slot is now empty and the worker exits.
    Exit,
}

/// A notification of new work: a live worker is flagged so it looks again
/// before exiting; an empty slot hands out the next generation for a new
/// worker.
pub open spec fn notify_step<C>(s: SlotState<C>) -> (SlotState<C>, NotifyDecision) {
    match s.occupant {
        Some(o) => (
            SlotState {
                occupant: Some(Occupant { pending: true, ..o }),
                next_generation: s.next_generation,
            },
            NotifyDecision::Queued,
        ),
        None => (
            SlotState {
                occupant: None,
                next_generation: (if s.next_generation == u64::MAX {
                    0
                } else {
                    (s.next_generation + 1) as u64
                }),
            },
            NotifyDecision::Spawn { generation: s.next_generation },
        ),
    }
}

/// The worker of `generation` takes the empty slot for task `id`.
pub open spec fn install_step<C>(s: SlotState<C>, id: i64, cancel: C, generation: u64) -> SlotState<C> {
    SlotState {
        occupant: Some(Occupant { id, cancel, pending: false, generation }),
        next_generation: s.next_generation,
    }
}

/// The worker starts sending task `id`, publishing a fresh cancellation token.
pub open spec fn begin_step<C>(s: SlotState<C>, id: i64, cancel: C) -> SlotState<C> {
    match s.occupant {
        Some(o) => SlotState {
            occupant: Some(Occupant { id, cancel, ..o }),
            next_generation: s.next_generation,
        },
        None => s,
    }
}

/// The worker found the queue empty: it keeps going if work was announced
/// meanwhile (clearing the flag), else it empties the slot and exits.
pub open spec fn idle_step<C>(s: SlotState<C>) -> (SlotState<C>, IdleDecision) {
    match s.occupant {
        Some(o) => if o.pending {
            (
                SlotState {
                    occupant: Some(Occupant { pending: false, ..o }),
                    next_generation: s.next_generation,
                },
                IdleDecision::Continue,
            )
        } else {
            (SlotState { occupant: None, next_generation: s.next_generation }, IdleDecision::Exit)
        },
        None => (s, IdleDecision::Exit),
    }
}

/// The worker of `generation` ended (returned or panicked): the slot is
/// emptied only if that worker still occupies it.
pub open spec fn release_step<C>(s: SlotState<C>, generation: u64) -> SlotState<C> {
    match s.occupant {
        Some(o) => if o.generation == generation {
            SlotState { occupant: None, next_generation: s.next_generation }
        } else {
            s
        },
        None => s,
    }
}

/// The cancellation token to fire for a request to cancel task `task_id`: the
/// current one, and only when the running send is that task.
pub open spec fn cancel_target<C>(s: SlotState<C>, task_id: i64) -> Option<C> {
    match s.occupant {
        Some(o) => if o.id == task_id {
            Some(o.cancel)
        } else {
            None
        },
        None => None,
    }
}

/// The multicast worker slot.
pub struct MulticastSlot<H, C> {
    current: Option<RunningTask<H, C>>,
    next_generation: u64,
}

impl<H, C> MulticastSlot<H, C> {
    /// The state of the slot.
    pub closed spec fn state(&self) -> SlotState<C> {
        SlotState {
            occupant: match self.current {
                Some(r) => Some(Occupant {
                    id: r.id,
                    cancel: r.cancel,
                    pending: r.pending,
                    generation: r.generation,
                }),
                None => None,
            },
            next_generation: self.next_generation,
        }
    }

    /// The handle of the worker occupying the slot, if any.
    pub closed spec fn worker(&self) -> Option<H> {
        match self.current {
            Some(r) => Some(r.handle),
            None => None,
        }
    }

    /// An empty slot; the first worker gets generation 0.
    pub fn new() -> (s: MulticastSlot<H, C>)
        ensures
            s.state().occupant is None,
            s.state().next_generation == 0,
            s.worker() is None,
    {
        MulticastSlot { current: None, next_generation: 0 }
    }

    /// Whether a worker occupies the slot.
    pub fn is_occupied(&self) -> (b: bool)
        ensures
            b == self.state().occupant is Some,
    {
        self.current.is_some()
    }

    /// New multicast work was queued. If a worker is live it is flagged and
    /// nothing is spawned; otherwise the caller must spawn a worker with the
    /// returned generation and `install` it before releasing the lock.
    pub fn notify_new(&mut self) -> (d: NotifyDecision)
        ensures
            (final(self).state(), d) == notify_step(old(self).state()),
            final(self).worker() == old(self).worker(),
    {
        match &mut self.current {
            Some(r) => {
                r.pending = true;
                NotifyDecision::Queued
            },
            None => {
                let generation = self.next_generation;
                self.next_generation = self.next_generation.wrapping_add(1);
                NotifyDecision::Spawn { generation }
            },
        }
    }

    /// Installs the freshly spawned worker of `generation` for task `task_id`
    /// (the task the notification was about; the worker re-publishes the task
    /// it actually picks).
    pub fn install(&mut self, task_id: i64, handle: H, cancel: C, generation: u64)
        requires
            old(self).state().occupant is None,
        ensures
            final(self).state() == install_step(old(self).state(), task_id, cancel, generation),
            final(self).worker() == Some(handle),
    {
        self.current = Some(RunningTask { id: task_id, handle, cancel, pending: false, generation });
    }

    /// The worker dequeued task `task_id` and publishes the token that cancels
    /// its send.
    pub fn begin_task(&mut self, task_id: i64, cancel: C)
        ensures
            final(self).state() == begin_step(old(self).state(), task_id, cancel),
            final(self).worker() == old(self).worker(),
    {
        match &mut self.current {
            Some(r) => {
                r.id = task_id;
                r.cancel = cancel;
            },
            None => {},
        }
    }

    /// The worker found the queue empty. It continues when work was announced
    /// meanwhile, and otherwise empties the slot and exits, so a task queued
    /// while the worker was on its way out is never dropped.
    pub fn finish_if_idle(&mut self) -> (d: IdleDecision)
        ensures
            (final(self).state(), d) == idle_step(old(self).state()),
            final(self).worker() == (if d == IdleDecision::Exit { None } else { old(self).worker() }),
    {
        let keep_going = match &mut self.current {
            Some(r) => if r.pending {
                r.pending = false;
                true
            } else {
                false
            },
            None => false,
        };
        if keep_going {
            IdleDecision::Continue
        } else {
            self.current = None;
            IdleDecision::Exit
        }
    }

    /// The worker of `generation` has ended: the slot is emptied if, and only
    /// if, that worker still occupies it.
    pub fn release(&mut self, generation: u64)
        ensures
            final(self).state() == release_step(old(self).state(), generation),
            final(self).worker() == (if final(self).state().occupant is None { None } else { old(self).worker() }),
    {
        let mine = match &self.current {
            Some(r) => r.generation == generation,
            None => false,
        };
        if mine {
            self.current = None;
        }
    }

    /// The token that stops the running send of task `task_id`, if that is
    /// the task currently being sent.
    pub fn cancel_token(&self, task_id: i64) -> (c: Option<&C>)
        ensures
            match c {
                Some(t) => cancel_target(self.state(), task_id) == Some(*t),
                None => cancel_target(self.state(), task_id) is None,
            },
    {
        match &self.current {
            Some(r) => if r.id == task_id {
                Some(&r.cancel)
            } else {
                None
            },
            None => None,
        }
    }

    /// The handle of the live worker, if any.
    pub fn handle(&self) -> (h: Option<&H>)
        ensures
            match h {
                Some(w) => self.worker() == Some(*w),
                None => self.worker() is None,
            },
            h is Some == self.state().occupant is Some,
    {
        match &self.current {
            Some(r) => Some(&r.handle),
            None => None,
        }
    }
}

/// While a worker is live, a notification never spawns a second one and
/// leaves the running task, its token and its generation alone.
pub proof fn lemma_no_second_worker<C>(s: SlotState<C>)
    requires
        s.occupant is Some,
    ensures
        notify_step(s).1 == NotifyDecision::Queued,
        notify_step(s).0.occupant is Some,
        notify_step(s).0.occupant->0.id == s.occupant->0.id,
        notify_step(s).0.occupant->0.cancel == s.occupant->0.cancel,
        notify_step(s).0.occupant->0.generation == s.occupant->0.generation,
{
}

/// A notification that reaches a live worker before it checks for an empty
/// queue makes that worker poll again instead of exiting: no notified task is
/// dropped, however the notification and the exit interleave. A notification
/// after the exit finds the slot empty and spawns a fresh worker.
pub proof fn lemma_notification_is_never_lost<C>(s: SlotState<C>)
    ensures
        s.occupant is Some ==> idle_step(notify_step(s).0).1 == IdleDecision::Continue,
        idle_step(s).1 == IdleDecision::Exit ==> notify_step(idle_step(s).0).1 is Spawn,
{
}

/// A worker that ended only empties the slot it occupies: an ended worker of
/// another generation leaves the live worker in place.
pub proof fn lemma_release_only_clears_own_generation<C>(s: SlotState<C>, generation: u64)
    ensures
        s.occupant is Some && s.occupant->0.generation != generation ==> release_step(s, generation)
            == s,
        s.occupant is Some && s.occupant->0.generation == generation ==> release_step(
            s,
            generation,
        ).occupant is None,
{
}

/// A freshly spawned worker's generation differs from the generation of the
/// worker it follows, so the late release of the previous worker cannot empty
/// the slot of the new one (as long as fewer than 2^64 workers are spawned in
/// between).
pub proof fn lemma_fresh_worker_survives_stale_release<C>(s: SlotState<C>, id: i64, cancel: C, stale: u64)
    requires
        s.occupant is None,
        stale < s.next_generation,
    ensures
        ({
            let (t, d) = notify_step(s);
            let g = d->generation;
            let u = install_step(t, id, cancel, g);
            release_step(u, stale) == u
        }),
{
}

/// Cancelling a task stops the current send only when that task is the one
/// being sent.
pub proof fn lemma_cancel_targets_only_the_running_task<C>(s: SlotState<C>, task_id: i64)
    ensures
        cancel_target(s, task_id) is Some <==> (s.occupant is Some && s.occupant->0.id == task_id),
{
}

// ---------------------------------------------------------------------------
// Recovery on startup, and the checks before a send.
// ---------------------------------------------------------------------------

/// Whether a task is a multicast task left running (e.g. by a server that
/// stopped mid-send).
pub open spec fn is_orphaned_multicast(t: Task) -> bool {
    t.task_type == TaskType::Multicast && aggregate(t.states()) == TaskState::Running
}

/// The ids of the tasks of `tasks` that are orphaned multicast tasks, in order.
pub open spec fn orphan_ids(tasks: Seq<Task>) -> Seq<i64> {
    tasks.filter(|t: Task| is_orphaned_multicast(t)).map_values(|t: Task| t.id)
}

/// The ids of the multicast tasks that were running when the server stopped,
/// in the order given. On startup each of them is marked failed.
pub fn orphaned_multicast_tasks(tasks: &Vec<Task>) -> (ids: Vec<i64>)
    ensures
        ids@ == orphan_ids(tasks@),
{
    let ghost pred = |t: Task| is_orphaned_multicast(t);
    let mut ids: Vec<i64> = Vec::new();
    let n = tasks.len();
    let mut i: usize = 0;
    while i < n
        invariant
            n == tasks@.len(),
            i <= n,
            pred == (|t: Task| is_orphaned_multicast(t)),
            ids@ == tasks@.take(i as int).filter(pred).map_values(|t: Task| t.id),
        decreases n - i,
    {
        let t = &tasks[i];
        let is_orphan = t.task_type == TaskType::Multicast && t.aggregate_state() == TaskState::Running;
        proof {
            assert(tasks@.take(i + 1) =~= tasks@.take(i as int).push(tasks@[i as int]));
            tasks@.take(i as int).lemma_filter_push(tasks@[i as int], pred);
            assert(pred(tasks@[i as int]) == is_orphan);
        }
        let ghost before = tasks@.take(i as int).filter(pred);
        if is_orphan {
            ids.push(t.id);
            assert(before.push(tasks@[i as int]).map_values(|t: Task| t.id) =~= before.map_values(|t: Task| t.id).push(tasks@[i as int].id));
        }
        assert(ids@ =~= tasks@.take(i + 1).filter(pred).map_values(|t: Task| t.id));
        i = i + 1;
    }
    assert(tasks@.take(n as int) =~= tasks@);
    ids
}

/// Whether `id` is the id of a multicast task of `tasks` whose rolled-up
/// state is running.
pub open spec fn is_running_multicast_id(tasks: Seq<Task>, id: i64) -> bool {
    exists|j: int|
        0 <= j < tasks.len() && #[trigger] tasks[j].id == id && tasks[j].task_type == TaskType::Multicast
            && aggregate(tasks[j].states()) == TaskState::Running
}

/// On startup only multicast tasks left running are marked failed: every id
/// returned is that of a multicast task of the list whose rolled-up state is
/// running (so a finished, failed, cancelled, partial or pending task, or a
/// task of another kind, is never the reason an id is returned), and every
/// multicast task left running has its id returned.
pub proof fn lemma_only_running_multicast_tasks_are_orphans(tasks: Seq<Task>)
    ensures
        forall|k: int|
            0 <= k < orphan_ids(tasks).len() ==> is_running_multicast_id(tasks, #[trigger] orphan_ids(tasks)[k]),
        forall|j: int|
            0 <= j < tasks.len() && (#[trigger] tasks[j]).task_type == TaskType::Multicast && aggregate(tasks[j].states())
                == TaskState::Running ==> orphan_ids(tasks).contains(tasks[j].id),
{
    let pred = |t: Task| is_orphaned_multicast(t);
    let f = tasks.filter(pred);
    let ids = f.map_values(|t: Task| t.id);
    assert(ids =~= orphan_ids(tasks));
    assert forall|k: int| 0 <= k < orphan_ids(tasks).len() implies is_running_multicast_id(
        tasks,
        #[trigger] orphan_ids(tasks)[k],
    ) by {
        tasks.lemma_filter_pred(pred, k);
        assert(f.contains(f[k]));
        tasks.lemma_filter_contains_rev(pred, f[k]);
        let j = choose|j: int| 0 <= j < tasks.len() && tasks[j] == f[k];
        assert(tasks[j].id == orphan_ids(tasks)[k]);
    }
    assert forall|j: int|
        0 <= j < tasks.len() && (#[trigger] tasks[j]).task_type == TaskType::Multicast && aggregate(tasks[j].states())
            == TaskState::Running implies ids.contains(tasks[j].id) by {
        tasks.lemma_filter_contains(pred, j);
        let i = choose|i: int| 0 <= i < f.len() && f[i] == tasks[j];
        assert(ids[i] == tasks[j].id);
    }
}

/// The image a multicast task sends, after checking it is still a pending
/// multicast task: anything else is `FailedPrecondition("tasktype or state is
/// wrong")`, and a task without an image is `FailedPrecondition("image id is
/// not set")`.
pub fn check_multicast_task(task: &Task) -> (r: Result<i64, AppError>)
    ensures
        !(task.task_type == TaskType::Multicast && aggregate(task.states()) == TaskState::Pending)
            ==> r is Err && r->Err_0@ == AppErrorView::FailedPrecondition("tasktype or state is wrong"@),
        task.task_type == TaskType::Multicast && aggregate(task.states()) == TaskState::Pending
            ==> match task.image_id {
            Some(image_id) => r == Ok::<i64, AppError>(image_id),
            None => r is Err && r->Err_0@ == AppErrorView::FailedPrecondition("image id is not set"@),
        },
{
    if task.task_type != TaskType::Multicast || task.aggregate_state() != TaskState::Pending {
        return Err(AppError::failed_precondition("tasktype or state is wrong"));
    }
    match task.image_id {
        Some(image_id) => Ok(image_id),
        None => Err(AppError::failed_precondition("image id is not set")),
    }
}

// ---------------------------------------------------------------------------
// The transfer plan and its progress.
// ---------------------------------------------------------------------------

/// One file of a multicast transfer and the port it is sent on.
pub struct PlanEntry {
    pub path: String,
    pub port: u16,
}

/// The files of an image's transfer, in sending order: the partition table on
/// the port of slot 0, then each partition on the port of its number.
pub fn transfer_plan(service: &ImageService, image_id: i64, partitions: &Vec<ImagePartition>) -> (plan: Vec<PlanEntry>)
    ensures
        plan@.len() == partitions@.len() + 1,
        plan@[0].path@ == under(service.root(), relative_table_path(image_id as int)),
        plan@[0].port == multicast_port(0),
        forall|k: int| 0 <= k < partitions@.len() ==> {
            &&& (#[trigger] plan@[k + 1]).path@ == under(
                service.root(),
                relative_partition_path(image_id as int, partitions@[k].partition_number as int),
            )
            &&& plan@[k + 1].port == multicast_port(partitions@[k].partition_number as int)
        },
{
    let mut plan: Vec<PlanEntry> = Vec::new();
    plan.push(PlanEntry { path: service.get_partition_table_path(image_id), port: get_multicast_port(0) });
    let n = partitions.len();
    let mut i: usize = 0;
    while i < n
        invariant
            n == partitions@.len(),
            i <= n,
            plan@.len() == i + 1,
            plan@[0].path@ == under(service.root(), relative_table_path(image_id as int)),
            plan@[0].port == multicast_port(0),
            forall|k: int| 0 <= k < i ==> {
                &&& (#[trigger] plan@[k + 1]).path@ == under(
                    service.root(),
                    relative_partition_path(image_id as int, partitions@[k].partition_number as int),
                )
                &&& plan@[k + 1].port == multicast_port(partitions@[k].partition_number as int)
            },
        decreases n - i,
    {
        let number = partitions[i].partition_number;
        plan.push(PlanEntry {
            path: service.get_partition_path(image_id, number),
            port: get_multicast_port(number),
        });
        i = i + 1;
    }
    plan
}

/// The sum of the first `k` sizes.
pub open spec fn prefix_sum(sizes: Seq<u64>, k: int) -> int
    decreases k,
{
    if k <= 0 {
        0
    } else {
        prefix_sum(sizes, k - 1) + sizes[k - 1]
    }
}

/// Where one file stands within the whole task: its 1-based step number out
/// of `steps`, the bytes of the files sent before it and the bytes of all
/// files.
#[derive(Debug, Clone, Copy, PartialEq, Eq, Structural)]
pub struct TransferStep {
    pub task_id: i64,
    pub step: usize,
    pub steps: usize,
    pub bytes_before: u64,
    pub total_bytes: u64,
}

/// The steps of a task whose files have the given sizes, in sending order.
pub fn transfer_steps(task_id: i64, sizes: &Vec<u64>) -> (steps: Vec<TransferStep>)
    requires
        prefix_sum(sizes@, sizes@.len() as int) <= u64::MAX,
    ensures
        steps@.len() == sizes@.len(),
        forall|k: int| 0 <= k < sizes@.len() ==> #[trigger] steps@[k] == (TransferStep {
            task_id,
            step: (k + 1) as usize,
            steps: sizes@.len() as usize,
            bytes_before: prefix_sum(sizes@, k) as u64,
            total_bytes: prefix_sum(sizes@, sizes@.len() as int) as u64,
        }),
{
    let n = sizes.len();
    let mut total: u64 = 0;
    let mut i: usize = 0;
    while i < n
        invariant
            n == sizes@.len(),
            i <= n,
            total == prefix_sum(sizes@, i as int),
            prefix_sum(sizes@, n as int) <= u64::MAX,
        decreases n - i,
    {
        proof {
            lemma_prefix_sum_monotone(sizes@, i + 1, n as int);
        }
        total = total + sizes[i];
        i = i + 1;
    }
    let mut steps: Vec<TransferStep> = Vec::new();
    let mut before: u64 = 0;
    let mut j: usize = 0;
    while j < n
        invariant
            n == sizes@.len(),
            j <= n,
            total == prefix_sum(sizes@, n as int),
            before == prefix_sum(sizes@, j as int),
            steps@.len() == j,
            forall|k: int| 0 <= k < j ==> #[trigger] steps@[k] == (TransferStep {
                task_id,
                step: (k + 1) as usize,
                steps: n,
                bytes_before: prefix_sum(sizes@, k) as u64,
                total_bytes: total,
            }),
        decreases n - j,
    {
        steps.push(TransferStep { task_id, step: j + 1, steps: n, bytes_before: before, total_bytes: total });
        proof {
            lemma_prefix_sum_monotone(sizes@, j + 1, n as int);
        }
        before = before + sizes[j];
        j = j + 1;
    }
    steps
}

/// Prefix sums of sizes never decrease.
pub proof fn lemma_prefix_sum_monotone(sizes: Seq<u64>, a: int, b: int)
    requires
        0 <= a <= b <= sizes.len(),
    ensures
        0 <= prefix_sum(sizes, a) <= prefix_sum(sizes, b),
    decreases b - a,
{
    if a < b {
        lemma_prefix_sum_monotone(sizes, a, b - 1);
    } else {
        lemma_prefix_sum_nonneg(sizes, a);
    }
}

proof fn lemma_prefix_sum_nonneg(sizes: Seq<u64>, k: int)
    requires
        0 <= k <= sizes.len(),
    ensures
        prefix_sum(sizes, k) >= 0,
    decreases k,
{
    if k > 0 {
        lemma_prefix_sum_nonneg(sizes, k - 1);
    }
}

/// The byte counts of a task's progress while one of its files is being
/// sent: bytes of the whole task sent so far, and bytes left (never below
/// zero, even when a file grew while it was sent).
#[derive(Debug, Clone, Copy, PartialEq, Eq, Structural)]
pub struct StepBytes {
    pub sent: u64,
    pub left: u64,
}

impl TransferStep {
    /// The task-wide byte counts once `blocks_sent` blocks of `block_size`
    /// bytes of this step's file are out.
    pub fn bytes(&self, blocks_sent: u64, block_size: u32) -> (b: StepBytes)
        requires
            blocks_sent * block_size + self.bytes_before <= u64::MAX,
        ensures
            b.sent == self.bytes_before + blocks_sent * block_size,
            b.left == (if self.total_bytes >= b.sent {
                self.total_bytes - b.sent
            } else {
                0
            }),
    {
        proof {
            assert(blocks_sent * block_size <= u64::MAX) by (nonlinear_arith)
                requires
                    blocks_sent * block_size + self.bytes_before <= u64::MAX,
                    self.bytes_before >= 0;
        }
        let sent = self.bytes_before + blocks_sent * (block_size as u64);
        StepBytes { sent, left: self.total_bytes.saturating_sub(sent) }
    }
}

// ---------------------------------------------------------------------------
// Naming the receiver that holds a transfer up.
// ---------------------------------------------------------------------------

/// What limits a transfer's rate, reduced to what names a receiver.
#[derive(Debug, Clone, Copy, PartialEq, Eq, Structural)]
pub enum LimitingFactor {
    /// The sliding window is held by this receiver.
    WindowStalled { blocked_by: u64 },
    /// The rate is limited by this receiver's losses.
    RateLimited { worst: u64 },
    /// This receiver stopped draining its data.
    SinkStalled { receiver: u64 },
    /// Anything else: no receiver is to blame.
    Other,
}

/// The receiver a limiting factor blames, if any.
pub open spec fn blamed(limiting: LimitingFactor) -> Option<u64> {
    match limiting {
        LimitingFactor::WindowStalled { blocked_by } => Some(blocked_by),
        LimitingFactor::RateLimited { worst } => Some(worst),
        LimitingFactor::SinkStalled { receiver } => Some(receiver),
        LimitingFactor::Other => None,
    }
}

/// The position, among the receivers' ids, of the first receiver the
/// limiting factor blames; `None` when no receiver is blamed or the blamed one
/// is not listed.
pub fn limiting_receiver(limiting: LimitingFactor, receiver_ids: &Vec<u64>) -> (r: Option<usize>)
    ensures
        match r {
            Some(k) => {
                &&& blamed(limiting) is Some
                &&& k < receiver_ids@.len()
                &&& receiver_ids@[k as int] == blamed(limiting)->0
                &&& forall|j: int| 0 <= j < k ==> receiver_ids@[j] != blamed(limiting)->0
            },
            None => blamed(limiting) is None || forall|j: int| 0 <= j < receiver_ids@.len()
                ==> receiver_ids@[j] != blamed(limiting)->0,
        },
{
    let id = match limiting {
        LimitingFactor::WindowStalled { blocked_by } => blocked_by,
        LimitingFactor::RateLimited { worst } => worst,
        LimitingFactor::SinkStalled { receiver } => receiver,
        LimitingFactor::Other => {
            return None;
        },
    };
    let n = receiver_ids.len();
    let mut i: usize = 0;
    while i < n
        invariant
            n == receiver_ids@.len(),
            i <= n,
            blamed(limiting) == Some(id),
            forall|j: int| 0 <= j < i ==> receiver_ids@[j] != id,
        decreases n - i,
    {
        if receiver_ids[i] == id {
            return Some(i);
        }
        i = i + 1;
    }
    None
}

} // verus!

verus! {

// ---------------------------------------------------------------------------
// Naming receivers by host, and the sender's interface address.
// ---------------------------------------------------------------------------

/// Whether host `host_id` has a row in the task.
pub open spec fn has_host(task: Task, host_id: i64) -> bool {
    exists|k: int| 0 <= k < task.hosts@.len() && (#[trigger] task.hosts@[k]).host_id == host_id
}

fn task_has_host(task: &Task, host_id: i64) -> (b: bool)
    ensures
        b == has_host(*task, host_id),
{
    let n = task.hosts.len();
    let mut k: usize = 0;
    while k < n
        invariant
            n == task.hosts@.len(),
            k <= n,
            forall|j: int| 0 <= j < k ==> (#[trigger] task.hosts@[j]).host_id != host_id,
        decreases n - k,
    {
        if task.hosts[k].host_id == host_id {
            return true;
        }
        k = k + 1;
    }
    false
}

/// How a receiver is named in progress logs: `<host name> (#<host id>)`.
pub open spec fn target_label(name: Seq<char>, id: i64) -> Seq<char> {
    name + " (#"@ + signed_decimal(id as int) + ")"@
}

/// The naming entry a host contributes for a task's transfer: the host's
/// address, when the host belongs to the task and its recorded address parses.
pub open spec fn target_entry(task: Task, host: Host, address: Option<IpAddress>) -> Option<(IpAddress, Seq<char>)> {
    if has_host(task, host.id) && host.ip is Some && address is Some {
        Some((address->0, target_label(host.name@, host.id)))
    } else {
        None
    }
}

/// The integer an IPv4 address is filed under.
pub open spec fn key_v4(a: u8, b: u8, c: u8, d: u8) -> int {
    a * 0x100_0000 + b * 0x1_0000 + c * 0x100 + d
}

/// The integer an IPv6 address is filed under: its segments read as the
/// digits of a number in base 2^16.
pub open spec fn key_v6(s0: u16, s1: u16, s2: u16, s3: u16, s4: u16, s5: u16, s6: u16, s7: u16) -> int {
    ((((((s0 * 0x1_0000 + s1) * 0x1_0000 + s2) * 0x1_0000 + s3) * 0x1_0000 + s4) * 0x1_0000 + s5) * 0x1_0000
        + s6) * 0x1_0000 + s7
}

/// A number written with one more digit in base 2^16 determines that digit
/// and the number before it.
proof fn lemma_digit_step(x: int, a: u16, y: int, b: u16)
    requires
        x * 0x1_0000 + a == y * 0x1_0000 + b,
    ensures
        x == y && a == b,
{
    if x < y {
        assert(x * 0x1_0000 + 0x1_0000 <= y * 0x1_0000);
    } else if y < x {
        assert(y * 0x1_0000 + 0x1_0000 <= x * 0x1_0000);
    }
}

proof fn lemma_key_v4_injective(a: u8, b: u8, c: u8, d: u8, e: u8, f: u8, g: u8, h: u8)
    requires
        key_v4(a, b, c, d) == key_v4(e, f, g, h),
    ensures
        a == e && b == f && c == g && d == h,
{
}

proof fn lemma_key_v6_injective(s: (u16, u16, u16, u16, u16, u16, u16, u16), t: (u16, u16, u16, u16, u16, u16, u16, u16))
    requires
        key_v6(s.0, s.1, s.2, s.3, s.4, s.5, s.6, s.7) == key_v6(t.0, t.1, t.2, t.3, t.4, t.5, t.6, t.7),
    ensures
        s == t,
{
    let x1 = s.0 * 0x1_0000 + s.1;
    let y1 = t.0 * 0x1_0000 + t.1;
    let x2 = x1 * 0x1_0000 + s.2;
    let y2 = y1 * 0x1_0000 + t.2;
    let x3 = x2 * 0x1_0000 + s.3;
    let y3 = y2 * 0x1_0000 + t.3;
    let x4 = x3 * 0x1_0000 + s.4;
    let y4 = y3 * 0x1_0000 + t.4;
    let x5 = x4 * 0x1_0000 + s.5;
    let y5 = y4 * 0x1_0000 + t.5;
    let x6 = x5 * 0x1_0000 + s.6;
    let y6 = y5 * 0x1_0000 + t.6;
    lemma_digit_step(x6, s.7, y6, t.7);
    lemma_digit_step(x5, s.6, y5, t.6);
    lemma_digit_step(x4, s.5, y4, t.5);
    lemma_digit_step(x3, s.4, y3, t.4);
    lemma_digit_step(x2, s.3, y2, t.3);
    lemma_digit_step(x1, s.2, y1, t.2);
    lemma_digit_step(s.0 as int, s.1, t.0 as int, t.1);
}

/// Two addresses filed under the same key are the same address.
proof fn lemma_same_key(x: IpAddress, y: IpAddress)
    requires
        x is V4 == y is V4,
        x is V4 ==> key_v4(x->V4_0, x->V4_1, x->V4_2, x->V4_3) == key_v4(y->V4_0, y->V4_1, y->V4_2, y->V4_3),
        x is V6 ==> key_v6(x->V6_0, x->V6_1, x->V6_2, x->V6_3, x->V6_4, x->V6_5, x->V6_6, x->V6_7)
            == key_v6(y->V6_0, y->V6_1, y->V6_2, y->V6_3, y->V6_4, y->V6_5, y->V6_6, y->V6_7),
    ensures
        x == y,
{
    match (x, y) {
        (IpAddress::V4(a, b, c, d), IpAddress::V4(e, f, g, h)) => lemma_key_v4_injective(a, b, c, d, e, f, g, h),
        (IpAddress::V6(s0, s1, s2, s3, s4, s5, s6, s7), IpAddress::V6(t0, t1, t2, t3, t4, t5, t6, t7)) =>
            lemma_key_v6_injective((s0, s1, s2, s3, s4, s5, s6, s7), (t0, t1, t2, t3, t4, t5, t6, t7)),
        _ => {},
    }
}

/// The key of an IPv6 address.
fn v6_key(s0: u16, s1: u16, s2: u16, s3: u16, s4: u16, s5: u16, s6: u16, s7: u16) -> (k: u128)
    ensures
        k == key_v6(s0, s1, s2, s3, s4, s5, s6, s7),
{
    let mut k: u128 = s0 as u128;
    assert(k < 0x1_0000);
    k = k * 0x1_0000 + s1 as u128;
    assert(k < 0x1_0000_0000);
    k = k * 0x1_0000 + s2 as u128;
    assert(k < 0x1_0000_0000_0000);
    k = k * 0x1_0000 + s3 as u128;
    assert(k < 0x1_0000_0000_0000_0000);
    k = k * 0x1_0000 + s4 as u128;
    assert(k < 0x1_0000_0000_0000_0000_0000);
    k = k * 0x1_0000 + s5 as u128;
    assert(k < 0x1_0000_0000_0000_0000_0000_0000);
    k = k * 0x1_0000 + s6 as u128;
    assert(k < 0x1_0000_0000_0000_0000_0000_0000_0000);
    k = k * 0x1_0000 + s7 as u128;
    k
}

/// The host names of a transfer's receivers, by address.
pub struct ReceiverNames {
    v4: HashMap<u32, String>,
    v6: HashMap<u128, String>,
}

impl ReceiverNames {
    /// The name filed for `address`, if any.
    pub closed spec fn lookup(&self, address: IpAddress) -> Option<Seq<char>> {
        match address {
            IpAddress::V4(a, b, c, d) => {
                let k = key_v4(a, b, c, d) as u32;
                if self.v4@.contains_key(k) { Some(self.v4@[k]@) } else { None }
            },
            IpAddress::V6(s0, s1, s2, s3, s4, s5, s6, s7) => {
                let k = key_v6(s0, s1, s2, s3, s4, s5, s6, s7) as u128;
                if self.v6@.contains_key(k) { Some(self.v6@[k]@) } else { None }
            },
        }
    }

    /// No names.
    pub fn new() -> (names: ReceiverNames)
        ensures
            forall|a: IpAddress| #[trigger] names.lookup(a) is None,
    {
        ReceiverNames { v4: HashMap::new(), v6: HashMap::new() }
    }

    /// Files `name` under `address`, replacing any name filed there before.
    pub fn insert(&mut self, address: IpAddress, name: String)
        ensures
            forall|a: IpAddress| #[trigger] final(self).lookup(a) == if a == address {
                Some(name@)
            } else {
                old(self).lookup(a)
            },
    {
        let ghost n = name@;
        match address {
            IpAddress::V4(a, b, c, d) => {
                let k: u32 = (a as u32) * 0x100_0000 + (b as u32) * 0x1_0000 + (c as u32) * 0x100 + (d as u32);
                self.v4.insert(k, name);
                proof {
                    assert forall|x: IpAddress| #[trigger] self.lookup(x) == if x == address { Some(n) } else {
                        old(self).lookup(x)
                    } by {
                        if x is V4 && x != address {
                            if key_v4(x->V4_0, x->V4_1, x->V4_2, x->V4_3) == key_v4(a, b, c, d) {
                                lemma_same_key(x, address);
                            }
                        }
                    }
                }
            },
            IpAddress::V6(s0, s1, s2, s3, s4, s5, s6, s7) => {
                let k = v6_key(s0, s1, s2, s3, s4, s5, s6, s7);
                self.v6.insert(k, name);
                proof {
                    assert forall|x: IpAddress| #[trigger] self.lookup(x) == if x == address { Some(n) } else {
                        old(self).lookup(x)
                    } by {
                        if x is V6 && x != address {
                            if key_v6(x->V6_0, x->V6_1, x->V6_2, x->V6_3, x->V6_4, x->V6_5, x->V6_6, x->V6_7)
                                == key_v6(s0, s1, s2, s3, s4, s5, s6, s7) {
                                lemma_same_key(x, address);
                            }
                        }
                    }
                }
            },
        }
    }

    /// The name filed for `address`, if any.
    pub fn get(&self, address: IpAddress) -> (name: Option<String>)
        ensures
            match name {
                Some(n) => self.lookup(address) == Some(n@),
                None => self.lookup(address) is None,
            },
    {
        let found = match address {
            IpAddress::V4(a, b, c, d) => {
                let k: u32 = (a as u32) * 0x100_0000 + (b as u32) * 0x1_0000 + (c as u32) * 0x100 + (d as u32);
                self.v4.get(&k)
            },
            IpAddress::V6(s0, s1, s2, s3, s4, s5, s6, s7) => {
                let k = v6_key(s0, s1, s2, s3, s4, s5, s6, s7);
                self.v6.get(&k)
            },
        };
        match found {
            Some(n) => Some(n.clone()),
            None => None,
        }
    }
}

/// The name the last entry for `address` among `entries` gives it, as a map
/// built from the entries in order holds it.
pub open spec fn last_named(entries: Seq<(IpAddress, Seq<char>)>, address: IpAddress) -> Option<Seq<char>>
    decreases entries.len(),
{
    if entries.len() == 0 {
        None
    } else if entries.last().0 == address {
        Some(entries.last().1)
    } else {
        last_named(entries.drop_last(), address)
    }
}

/// The naming entries for a task's receivers, one per host of the task whose
/// recorded address parses, in host order. `addresses[k]` is host `k`'s
/// recorded address as parsed (`None` when it has none or it does not parse).
pub open spec fn target_entries(task: Task, hosts: Seq<Host>, addresses: Seq<Option<IpAddress>>) -> Seq<(IpAddress, Seq<char>)> {
    Seq::new(hosts.len(), |k: int| (hosts[k], addresses[k])).filter_map(
        |p: (Host, Option<IpAddress>)| target_entry(task, p.0, p.1),
    )
}

/// The names of a task's receivers by address: each host of the task whose
/// recorded address parses names that address, a later host overriding an
/// earlier one with the same address. `addresses[k]` is host `k`'s recorded
/// address as parsed.
pub fn target_names(task: &Task, hosts: &Vec<Host>, addresses: &Vec<Option<IpAddress>>) -> (names: ReceiverNames)
    requires
        addresses@.len() == hosts@.len(),
    ensures
        forall|a: IpAddress| #[trigger] names.lookup(a) == last_named(target_entries(*task, hosts@, addresses@), a),
{
    let ghost pairs = Seq::new(hosts@.len(), |k: int| (hosts@[k], addresses@[k]));
    let ghost f = |p: (Host, Option<IpAddress>)| target_entry(*task, p.0, p.1);
    let mut names = ReceiverNames::new();
    let n = hosts.len();
    let mut i: usize = 0;
    while i < n
        invariant
            n == hosts@.len(),
            addresses@.len() == n,
            i <= n,
            pairs == Seq::new(hosts@.len(), |k: int| (hosts@[k], addresses@[k])),
            f == (|p: (Host, Option<IpAddress>)| target_entry(*task, p.0, p.1)),
            forall|a: IpAddress| #[trigger] names.lookup(a) == last_named(pairs.take(i as int).filter_map(f), a),
        decreases n - i,
    {
        let host = &hosts[i];
        let belongs = task_has_host(task, host.id);
        proof {
            pairs.lemma_filter_map_take_succ(f, i as int);
        }
        let ghost before = pairs.take(i as int).filter_map(f);
        if belongs && host.ip.is_some() {
            match addresses[i] {
                Some(address) => {
                    let mut label = host.name.clone();
                    push_str(&mut label, " (#");
                    push_signed_decimal(&mut label, host.id);
                    push_str(&mut label, ")");
                    assert(label@ =~= target_label(host.name@, host.id));
                    names.insert(address, label);
                    proof {
                        let after = pairs.take(i + 1).filter_map(f);
                        assert(after =~= before.push((address, target_label(host.name@, host.id))));
                        assert(after.drop_last() =~= before);
                    }
                },
                None => {},
            }
        }
        i = i + 1;
    }
    assert(pairs.take(n as int) =~= pairs);
    names
}

/// The host name recorded for a receiver's address: the last entry for that
/// address, as the map of names holds it; `None` when the address belongs to
/// no host of the task (the caller then shows the raw address).
pub fn receiver_name(names: &ReceiverNames, address: IpAddress) -> (name: Option<String>)
    ensures
        match name {
            Some(n) => names.lookup(address) == Some(n@),
            None => names.lookup(address) is None,
        },
{
    names.get(address)
}

/// The IPv4 address of the interface called `name`, from the machine's
/// listing of (interface, address) pairs: the first IPv4 address listed for
/// that interface. A listing that failed is
/// `Internal("failed to list network interfaces: <error>")`; an interface
/// with no IPv4 address is `Internal("interface <name> has no IPv4 address")`.
pub fn interface_address(name: &str, listing: Result<Vec<(String, IpAddress)>, String>) -> (r: Result<(u8, u8, u8, u8), AppError>)
    ensures
        match listing {
            Err(e) => r is Err && r->Err_0@ == AppErrorView::Internal(
                "failed to list network interfaces: "@ + e@,
            ),
            Ok(list) => match r {
                Ok(octets) => exists|k: int| {
                    &&& 0 <= k < list@.len()
                    &&& (#[trigger] list@[k]).0@ == name@
                    &&& list@[k].1 == IpAddress::V4(octets.0, octets.1, octets.2, octets.3)
                    &&& forall|j: int| 0 <= j < k ==> !(list@[j].0@ == name@ && list@[j].1 is V4)
                },
                Err(e) => {
                    &&& e@ == AppErrorView::Internal("interface "@ + name@ + " has no IPv4 address"@)
                    &&& forall|j: int| 0 <= j < list@.len() ==> !((#[trigger] list@[j]).0@ == name@
                        && list@[j].1 is V4)
                },
            },
        },
{
    match &listing {
        Err(e) => {
            let mut m = String::from_str("failed to list network interfaces: ");
            push_str(&mut m, e.as_str());
            assert(m@ == "failed to list network interfaces: "@ + e@);
            Err(AppError::Internal(m))
        },
        Ok(list) => {
            let wanted = String::from_str(name);
            let n = list.len();
            let mut i: usize = 0;
            while i < n
                invariant
                    n == list@.len(),
                    i <= n,
                    wanted@ == name@,
                    listing is Ok && listing->Ok_0 == *list,
                    forall|j: int| 0 <= j < i ==> !((#[trigger] list@[j]).0@ == name@ && list@[j].1 is V4),
                decreases n - i,
            {
                if list[i].0 == wanted {
                    match list[i].1 {
                        IpAddress::V4(a, b, c, d) => {
                            return Ok((a, b, c, d));
                        },
                        IpAddress::V6(..) => {},
                    }
                }
                i = i + 1;
            }
            let mut m = String::from_str("interface ");
            push_str(&mut m, name);
            push_str(&mut m, " has no IPv4 address");
            Err(AppError::Internal(m))
        },
    }
}

} // verus!
