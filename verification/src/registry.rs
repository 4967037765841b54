//! The table of connected hosts. Each connected host has exactly one live
//! connection, identified by a generation number, through which events are
//! sent to it. A connection's cleanup only removes the host when that same
//! connection is still the registered one, so a stale connection can never
//! tear down a newer one.
use vstd::prelude::*;
use vstd::string::*;
use std::collections::HashMap;
use vstd::std_specs::iter::IteratorSpec;
use crate::shared::error::{AppError, AppErrorView};
use crate::shared::types::{ServerEvent, Task as AgentTask};
use crate::domain::task::{shared_task_type, Task};

verus! {

broadcast use vstd::std_specs::hash::group_hash_axioms;

/// A change of a host's connection state, as broadcast to dashboards.
#[derive(Debug, Clone, Copy, PartialEq, Eq, Structural)]
pub struct HostConnectionEvent {
    pub id: i64,
    pub connected: bool,
}

impl HostConnectionEvent {
    pub fn new(id: i64, connected: bool) -> (e: HostConnectionEvent)
        ensures
            e == (HostConnectionEvent { id, connected }),
    {
        HostConnectionEvent { id, connected }
    }
}

/// One registered connection: its generation and the channel end through
/// which events reach the host.
pub struct HostEntry<S> {
    pub generation: u64,
    pub sender: S,
}

/// The connected hosts, keyed by host id, with the generation the next
/// connection will get.
pub struct HostTable<S> {
    map: HashMap<i64, HostEntry<S>>,
    next_generation: u64,
}

/// Whether the live connection of host `id` is the one of `generation`.
pub open spec fn holds(generations: Map<i64, u64>, id: i64, generation: u64) -> bool {
    generations.dom().contains(id) && generations[id] == generation
}

/// The connections left once the connection `generation` of host `id` is
/// cleaned up: the host goes only if that connection is still its live one.
pub open spec fn released(generations: Map<i64, u64>, id: i64, generation: u64) -> Map<i64, u64> {
    if holds(generations, id, generation) {
        generations.remove(id)
    } else {
        generations
    }
}

impl<S> HostTable<S> {
    /// The generation of each connected host's live connection.
    pub closed spec fn generations(&self) -> Map<i64, u64> {
        Map::new(|id: i64| self.map@.contains_key(id), |id: i64| self.map@[id].generation)
    }

    /// The generation the next registration will be given.
    pub closed spec fn next(&self) -> u64 {
        self.next_generation
    }

    /// The channel end of a connected host's live connection.
    pub closed spec fn sender_of(&self, id: i64) -> S {
        self.map@[id].sender
    }

    /// Every live connection is older than the next one to be handed out, so
    /// a new registration never reuses a generation.
    pub closed spec fn wf(&self) -> bool {
        forall|id: i64| #[trigger] self.map@.contains_key(id) ==> self.map@[id].generation
            < self.next_generation
    }

    /// An empty table.
    pub fn new() -> (t: HostTable<S>)
        ensures
            t.wf(),
            t.generations() == Map::<i64, u64>::empty(),
            t.next() == 0,
    {
        let t = HostTable { map: HashMap::new(), next_generation: 0 };
        assert(t.generations() =~= Map::<i64, u64>::empty());
        t
    }

    /// The generation the next registration will be given.
    pub fn next_generation(&self) -> (g: u64)
        ensures
            g == self.next(),
    {
        self.next_generation
    }

    /// Whether `id` has a live connection.
    pub fn is_connected(&self, id: i64) -> (b: bool)
        ensures
            b == self.generations().dom().contains(id),
    {
        self.map.contains_key(&id)
    }

    /// Registers a new connection for host `id`. A host that is already
    /// connected is refused with `FailedPrecondition("host already connected")`
    /// and the table is left as it was; otherwise the host gets the next
    /// generation and a connect event is returned for broadcasting.
    pub fn register(&mut self, id: i64, sender: S) -> (r: Result<(u64, HostConnectionEvent), AppError>)
        requires
            old(self).wf(),
            old(self).next() < u64::MAX,
        ensures
            final(self).wf(),
            old(self).generations().dom().contains(id) ==> {
                &&& r is Err
                &&& r->Err_0@ == AppErrorView::FailedPrecondition("host already connected"@)
                &&& final(self).generations() == old(self).generations()
                &&& final(self).next() == old(self).next()
                &&& final(self).sender_of(id) == old(self).sender_of(id)
            },
            !old(self).generations().dom().contains(id) ==> {
                &&& r is Ok
                &&& r->Ok_0.0 == old(self).next()
                &&& r->Ok_0.1 == (HostConnectionEvent { id, connected: true })
                &&& final(self).generations() == old(self).generations().insert(id, old(self).next())
                &&& final(self).next() == old(self).next() + 1
                &&& final(self).sender_of(id) == sender
            },
            forall|other: i64| other != id && old(self).generations().dom().contains(other)
                ==> final(self).sender_of(other) == old(self).sender_of(other),
    {
        if self.map.contains_key(&id) {
            return Err(AppError::FailedPrecondition(String::from_str("host already connected")));
        }
        let generation = self.next_generation;
        self.next_generation = self.next_generation + 1;
        let ghost before = self.map@;
        self.map.insert(id, HostEntry { generation, sender });
        assert(self.generations() =~= old(self).generations().insert(id, generation));
        Ok((generation, HostConnectionEvent::new(id, true)))
    }

    /// The cleanup of the connection `generation` of host `id`: the host is
    /// removed, and a disconnect event returned, only when that connection is
    /// still the registered one; a stale connection leaves the table as it is.
    pub fn release(&mut self, id: i64, generation: u64) -> (r: Option<HostConnectionEvent>)
        requires
            old(self).wf(),
        ensures
            final(self).wf(),
            final(self).next() == old(self).next(),
            final(self).generations() == released(old(self).generations(), id, generation),
            r == (if holds(old(self).generations(), id, generation) {
                Some(HostConnectionEvent { id, connected: false })
            } else {
                None
            }),
            forall|other: i64| other != id && old(self).generations().dom().contains(other)
                ==> final(self).sender_of(other) == old(self).sender_of(other),
    {
        let current = match self.map.get(&id) {
            Some(entry) => entry.generation == generation,
            None => false,
        };
        if current {
            self.map.remove(&id);
            assert(self.generations() =~= old(self).generations().remove(id));
            Some(HostConnectionEvent::new(id, false))
        } else {
            None
        }
    }

    /// Drops host `id`'s connection because the host announced it is going
    /// away. A disconnect event is returned when the host was connected; an
    /// unknown host is a no-op.
    pub fn deregister(&mut self, id: i64) -> (r: Option<HostConnectionEvent>)
        requires
            old(self).wf(),
        ensures
            final(self).wf(),
            final(self).next() == old(self).next(),
            final(self).generations() == old(self).generations().remove(id),
            r == (if old(self).generations().dom().contains(id) {
                Some(HostConnectionEvent { id, connected: false })
            } else {
                None
            }),
            forall|other: i64| other != id && old(self).generations().dom().contains(other)
                ==> final(self).sender_of(other) == old(self).sender_of(other),
    {
        let removed = self.map.remove(&id);
        assert(self.generations() =~= old(self).generations().remove(id));
        match removed {
            Some(_) => Some(HostConnectionEvent::new(id, false)),
            None => None,
        }
    }

    /// Connects host `id` afresh: a connection the host already has is
    /// displaced (its disconnect event is returned, and its later cleanup
    /// finds a newer generation and leaves the new connection alone), then the
    /// host is registered with the next generation, as `register` does.
    pub fn reconnect(&mut self, id: i64, sender: S) -> (r: (u64, Option<HostConnectionEvent>, HostConnectionEvent))
        requires
            old(self).wf(),
            old(self).next() < u64::MAX,
        ensures
            final(self).wf(),
            r.0 == old(self).next(),
            r.1 == (if old(self).generations().dom().contains(id) {
                Some(HostConnectionEvent { id, connected: false })
            } else {
                None
            }),
            r.2 == (HostConnectionEvent { id, connected: true }),
            final(self).generations() == old(self).generations().insert(id, old(self).next()),
            final(self).next() == old(self).next() + 1,
            final(self).sender_of(id) == sender,
            forall|other: i64| other != id && old(self).generations().dom().contains(other)
                ==> final(self).sender_of(other) == old(self).sender_of(other),
    {
        let displaced = self.deregister(id);
        let registered = self.register(id, sender);
        assert(old(self).generations().remove(id).insert(id, old(self).next()) =~= old(self).generations().insert(
            id,
            old(self).next(),
        ));
        match registered {
            Ok((generation, connected)) => (generation, displaced, connected),
            Err(_) => {
                assert(false);
                (0, displaced, HostConnectionEvent::new(id, true))
            },
        }
    }

    /// The channel end of host `id`'s live connection, if it is connected.
    pub fn sender(&self, id: i64) -> (r: Option<&S>)
        ensures
            match r {
                Some(s) => self.generations().dom().contains(id) && *s == self.sender_of(id),
                None => !self.generations().dom().contains(id),
            },
    {
        match self.map.get(&id) {
            Some(entry) => Some(&entry.sender),
            None => None,
        }
    }

    /// The current connection state as a list of connect events, one per
    /// connected host, each host exactly once.
    pub fn get_current_state(&self) -> (events: Vec<HostConnectionEvent>)
        ensures
            events@.len() == self.generations().dom().len(),
            forall|j: int| 0 <= j < events@.len() ==> (#[trigger] events@[j]).connected
                && self.generations().dom().contains(events@[j].id),
            forall|id: i64| #[trigger] self.generations().dom().contains(id) ==> exists|j: int|
                0 <= j < events@.len() && events@[j].id == id,
            forall|j: int, k: int| 0 <= j < k < events@.len() ==> events@[j].id != events@[k].id,
    {
        let mut events: Vec<HostConnectionEvent> = Vec::new();
        let keys = self.map.keys();
        let ghost all = keys.remaining();
        assert(all.unref().to_set() == self.map@.dom());
        assert(all.no_duplicates());
        for k in it: keys
            invariant
                all == it.seq(),
                events@.len() == it.index(),
                forall|j: int| 0 <= j < it.index() ==> #[trigger] events@[j] == (HostConnectionEvent {
                    id: *all[j],
                    connected: true,
                }),
        {
            events.push(HostConnectionEvent::new(*k, true));
        }
        proof {
            let ids = all.unref();
            assert(self.generations().dom() =~= self.map@.dom());
            assert(all.len() == self.map@.dom().len());
            assert forall|j: int| 0 <= j < events@.len() implies (#[trigger] events@[j]).connected
                && self.generations().dom().contains(events@[j].id) by {
                assert(ids[j] == *all[j]);
                assert(ids.to_set().contains(ids[j]));
            }
            assert forall|id: i64| #[trigger] self.generations().dom().contains(id) implies exists|j: int|
                0 <= j < events@.len() && events@[j].id == id by {
                assert(ids.to_set().contains(id));
                let j = choose|j: int| 0 <= j < ids.len() && ids[j] == id;
                assert(events@[j].id == id);
            }
            assert forall|j: int, k: int| 0 <= j < k < events@.len() implies events@[j].id
                != events@[k].id by {
                assert(all[j] != all[k]);
            }
        }
        events
    }
}

/// The event telling an agent to run `task`.
pub open spec fn task_event(task: Task) -> ServerEvent {
    ServerEvent::Task(AgentTask { id: task.id, task_type: shared_task_type(task.task_type), image_id: task.image_id })
}

/// The event pushed to a host for `task` (`send_task`).
pub fn task_event_for(task: &Task) -> (e: ServerEvent)
    ensures
        e == task_event(*task),
{
    ServerEvent::Task(AgentTask::new(task.id, task.task_type.into(), task.image_id))
}

/// The event pushed to a host to cancel task `task_id` (`cancel_task`).
pub fn cancel_event_for(task_id: i64) -> (e: ServerEvent)
    ensures
        e == ServerEvent::Cancel(task_id),
{
    ServerEvent::Cancel(task_id)
}

/// A connection's cleanup never tears down a later connection of the same
/// host: once host `id` has registered again and been given the generation
/// `next`, cleaning up any connection handed out before (a generation below
/// `next`) leaves the host connected under its new generation, and every
/// other host as it was.
pub proof fn lemma_stale_release_keeps_newer(generations: Map<i64, u64>, next: u64, id: i64, stale: u64)
    requires
        stale < next,
    ensures
        released(generations.insert(id, next), id, stale) == generations.insert(id, next),
{
}

/// Cleaning up a host's live connection disconnects it, and a connection
/// cleaned up twice is gone after the first time: the second cleanup
/// changes nothing.
pub proof fn lemma_release_is_idempotent(generations: Map<i64, u64>, id: i64, generation: u64)
    ensures
        holds(generations, id, generation) ==> !released(generations, id, generation).dom().contains(id),
        released(released(generations, id, generation), id, generation) == released(generations, id, generation),
{
}

} // verus!
