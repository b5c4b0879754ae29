//! The live-worker registry, per-worker control handles, and the shared
//! outcome queue.
//!
//! The registry owns one control entry per live worker (its cooperative
//! exit flag and pending-wait flag), keyed by the worker's identifier.  A
//! running task holds a non-owning [`Worker`] handle and talks to its entry
//! through the registry, so there is never a second ownership edge.  The
//! outcome queue is a sequence that producers push onto and the single
//! consumer pops from the front; pushes never block and pops report empty
//! as a normal result.

use vstd::prelude::*;
use crate::atomic_id_gen::AtomicIdGen;
use crate::error::PollError;
use crate::vote_response::VoteResponse;

verus! {

/// The registry-held control state of one live worker.
#[derive(Debug, Clone, Copy)]
pub struct WorkerState {
    exit_requested: bool,
    waiting: bool,
}

impl WorkerState {
    /// Whether the worker has been asked to exit.  Monotonic: once set it
    /// is never cleared while the entry exists.
    pub closed spec fn is_exit_requested(self) -> bool {
        self.exit_requested
    }

    /// Whether an interruptible wait is currently pending for the worker.
    pub closed spec fn is_waiting(self) -> bool {
        self.waiting
    }
}

/// One worker's outcome report: immutable once produced.
pub struct WorkerMessage {
    pub id: u64,
    pub data: Result<VoteResponse, PollError>,
}

/// A running task's non-owning handle to its own worker: its identifier,
/// the endpoint it claimed, and whether its one-shot cleanup has run.
pub struct Worker {
    id: u64,
    endpoint: String,
    cleaned: bool,
}

impl Worker {
    pub closed spec fn spec_id(self) -> u64 {
        self.id
    }

    pub closed spec fn spec_endpoint(self) -> Seq<char> {
        self.endpoint@
    }

    pub closed spec fn is_cleaned(self) -> bool {
        self.cleaned
    }

    pub fn id(&self) -> (r: u64)
        ensures
            r == self.spec_id(),
    {
        self.id
    }

    /// The endpoint this worker claimed, for the task that drives it.
    pub fn endpoint(&self) -> (r: &str)
        ensures
            r@ == self.spec_endpoint(),
    {
        self.endpoint.as_str()
    }

    /// Whether this handle's one-time cleanup has already run.
    pub fn cleanup_done(&self) -> (r: bool)
        ensures
            r == self.is_cleaned(),
    {
        self.cleaned
    }

    pub(crate) fn mark_cleaned(&mut self)
        ensures
            final(self).spec_id() == old(self).spec_id(),
            final(self).spec_endpoint() == old(self).spec_endpoint(),
            final(self).is_cleaned(),
    {
        self.cleaned = true;
    }
}

/// Tracks currently-live workers keyed by id, allocates their ids, and
/// carries their outcome messages.
pub struct WorkerManager {
    id_gen: AtomicIdGen,
    workers: Vec<(u64, WorkerState)>,
    worker_messages: Vec<WorkerMessage>,
}

/// The registries agree on every entry except possibly the one keyed `id`,
/// and no key moved.
pub open spec fn same_entries_except(pre: WorkerManager, post: WorkerManager, id: u64) -> bool {
    &&& post.entries().len() == pre.entries().len()
    &&& forall|i: int|
        0 <= i < pre.entries().len() ==> #[trigger] post.entries()[i].0 == pre.entries()[i].0
    &&& forall|i: int|
        0 <= i < pre.entries().len() && pre.entries()[i].0 != id ==> #[trigger] post.entries()[i]
            == pre.entries()[i]
}

impl WorkerManager {
    /// The id allocator's state.
    pub closed spec fn allocator(self) -> AtomicIdGen {
        self.id_gen
    }

    /// The registry entries, in insertion order.
    pub closed spec fn entries(self) -> Seq<(u64, WorkerState)> {
        self.workers@
    }

    /// The queued outcome messages, oldest first.
    pub closed spec fn messages(self) -> Seq<WorkerMessage> {
        self.worker_messages@
    }

    /// The registered worker ids, in insertion order.
    pub open spec fn ids(self) -> Seq<u64> {
        Seq::new(self.entries().len(), |i: int| self.entries()[i].0)
    }

    pub open spec fn is_registered(self, id: u64) -> bool {
        self.ids().contains(id)
    }

    pub open spec fn index_of(self, id: u64) -> int {
        choose|i: int| 0 <= i < self.entries().len() && self.entries()[i].0 == id
    }

    /// The control state of the worker registered under `id`.
    pub open spec fn state_of(self, id: u64) -> WorkerState {
        self.entries()[self.index_of(id)].1
    }

    pub open spec fn ids_distinct(self) -> bool {
        forall|i: int, j: int|
            0 <= i < j < self.entries().len() ==> self.entries()[i].0 != self.entries()[j].0
    }

    /// Registry invariant: the allocator is well formed, no id is
    /// registered twice, and every registered id is live in the allocator.
    pub open spec fn wf(self) -> bool {
        &&& self.allocator().wf()
        &&& self.ids_distinct()
        &&& forall|i: int|
            0 <= i < self.entries().len() ==> self.allocator().is_live(
                #[trigger] self.entries()[i].0,
            )
    }

    pub fn new() -> (r: Self)
        ensures
            r.wf(),
            r.entries() == Seq::<(u64, WorkerState)>::empty(),
            r.messages() == Seq::<WorkerMessage>::empty(),
            r.allocator().counter() == 0,
            r.allocator().free_ids() == Seq::<u64>::empty(),
    {
        WorkerManager {
            id_gen: AtomicIdGen::new(),
            workers: Vec::new(),
            worker_messages: Vec::new(),
        }
    }

    /// Allocates an id, registers a fresh control entry under it, and
    /// returns the task-side handle.  The id is held by no live worker.
    pub fn spawn(&mut self, endpoint: String) -> (w: Worker)
        requires
            old(self).wf(),
            old(self).allocator().counter() < u64::MAX,
        ensures
            final(self).wf(),
            !old(self).is_registered(w.spec_id()),
            !old(self).allocator().is_live(w.spec_id()),
            final(self).allocator().is_live(w.spec_id()),
            forall|id: u64|
                id != w.spec_id() ==> final(self).allocator().is_live(id) == old(self).allocator().is_live(
                    id,
                ),
            final(self).allocator().counter() <= old(self).allocator().counter() + 1,
            w.spec_endpoint() == endpoint@,
            !w.is_cleaned(),
            final(self).entries().len() == old(self).entries().len() + 1,
            forall|i: int|
                0 <= i < old(self).entries().len() ==> final(self).entries()[i] == old(
                    self,
                ).entries()[i],
            final(self).entries().last().0 == w.spec_id(),
            !final(self).entries().last().1.is_exit_requested(),
            !final(self).entries().last().1.is_waiting(),
            final(self).is_registered(w.spec_id()),
            final(self).messages() == old(self).messages(),
    {
        let id = self.id_gen.get_id();
        self.workers.push((id, WorkerState { exit_requested: false, waiting: false }));
        proof {
            if old(self).is_registered(id) {
                lemma_registered_index(*old(self), id);
                assert(old(self).allocator().is_live(id));
            }
            assert(self.ids().last() == id);
            assert forall|i: int, j: int|
                0 <= i < j < self.entries().len() implies self.entries()[i].0
                != self.entries()[j].0 by {
                if j < self.entries().len() - 1 {
                    assert(old(self).entries()[i].0 != old(self).entries()[j].0);
                } else {
                    assert(old(self).allocator().is_live(old(self).entries()[i].0));
                }
            }
        }
        Worker { id, endpoint, cleaned: false }
    }

    /// If a worker is registered under `id`, requests its shutdown (setting
    /// its exit flag and waking it if it waits) and reports `Some`; reports
    /// `None` if no such worker exists.  Non-blocking: it never waits for
    /// the worker to stop.
    pub fn shutdown_worker(&mut self, id: u64) -> (r: Option<()>)
        requires
            old(self).wf(),
        ensures
            final(self).wf(),
            r is Some <==> old(self).is_registered(id),
            !old(self).is_registered(id) ==> *final(self) == *old(self),
            old(self).is_registered(id) ==> {
                &&& same_entries_except(*old(self), *final(self), id)
                &&& final(self).is_registered(id)
                &&& final(self).state_of(id).is_exit_requested()
                &&& !final(self).state_of(id).is_waiting()
                &&& final(self).messages() == old(self).messages()
                &&& final(self).allocator() == old(self).allocator()
            },
    {
        match self.set_entry_flags(id, true, false) {
            Some(_) => Some(()),
            None => None,
        }
    }

    /// Requests shutdown of every registered worker, then drains the
    /// outcome queue until it is empty.  Does not wait for any worker to
    /// actually stop.
    pub fn shutdown(&mut self)
        requires
            old(self).wf(),
        ensures
            final(self).wf(),
            final(self).entries().len() == old(self).entries().len(),
            forall|i: int|
                0 <= i < old(self).entries().len() ==> {
                    &&& #[trigger] final(self).entries()[i].0 == old(self).entries()[i].0
                    &&& final(self).entries()[i].1.is_exit_requested()
                    &&& !final(self).entries()[i].1.is_waiting()
                },
            final(self).messages().len() == 0,
            final(self).allocator() == old(self).allocator(),
    {
        let n = self.workers.len();
        let mut i: usize = 0;
        while i < n
            invariant
                old(self).wf(),
                n == self.workers@.len(),
                i <= n,
                self.id_gen == old(self).id_gen,
                self.worker_messages@ == old(self).worker_messages@,
                forall|j: int|
                    0 <= j < n ==> #[trigger] self.workers@[j].0 == old(self).workers@[j].0,
                forall|j: int|
                    0 <= j < i ==> {
                        &&& #[trigger] self.workers@[j].1.is_exit_requested()
                        &&& !self.workers@[j].1.is_waiting()
                    },
            decreases n - i,
        {
            let wid = self.workers[i].0;
            self.workers[i] = (wid, WorkerState { exit_requested: true, waiting: false });
            i = i + 1;
        }
        while self.worker_messages.len() > 0
            invariant
                old(self).wf(),
                self.id_gen == old(self).id_gen,
                forall|j: int|
                    0 <= j < self.workers@.len() ==> #[trigger] self.workers@[j].0 == old(
                        self,
                    ).workers@[j].0,
                self.workers@.len() == old(self).workers@.len(),
                forall|j: int|
                    0 <= j < self.workers@.len() ==> {
                        &&& #[trigger] self.workers@[j].1.is_exit_requested()
                        &&& !self.workers@[j].1.is_waiting()
                    },
            decreases self.worker_messages@.len(),
        {
            let _ = self.worker_messages.remove(0);
        }
        proof {
            assert forall|i2: int, j2: int|
                0 <= i2 < j2 < self.entries().len() implies self.entries()[i2].0
                != self.entries()[j2].0 by {
                assert(old(self).entries()[i2].0 != old(self).entries()[j2].0);
            }
            assert forall|k: int|
                0 <= k < self.entries().len() implies self.allocator().is_live(
                self.entries()[k].0,
            ) by {
                assert(old(self).allocator().is_live(old(self).entries()[k].0));
            }
        }
    }

    /// Removes the entry registered under `id`, if any.  Idempotent with
    /// respect to the worker's one-time cleanup, which is its only caller.
    pub fn cleanup_worker(&mut self, id: u64)
        requires
            old(self).wf(),
        ensures
            final(self).wf(),
            final(self).allocator() == old(self).allocator(),
            final(self).messages() == old(self).messages(),
            !old(self).is_registered(id) ==> *final(self) == *old(self),
            old(self).is_registered(id) ==> {
                &&& final(self).entries() == old(self).entries().remove(old(self).index_of(id))
                &&& !final(self).is_registered(id)
                &&& forall|x: u64|
                    x != id ==> final(self).is_registered(x) == old(self).is_registered(x)
            },
    {
        let n = self.workers.len();
        let mut i: usize = 0;
        while i < n
            invariant
                old(self).wf(),
                *self == *old(self),
                n == self.workers@.len(),
                i <= n,
                forall|j: int| 0 <= j < i ==> #[trigger] self.workers@[j].0 != id,
            decreases n - i,
        {
            if self.workers[i].0 == id {
                proof {
                    lemma_entry_lookup(*old(self), i as int);
                }
                self.workers.remove(i);
                proof {
                    let pre = *old(self);
                    let post = *self;
                    assert(post.entries() == pre.entries().remove(i as int));
                    assert forall|a: int, b: int|
                        0 <= a < b < post.entries().len() implies post.entries()[a].0
                        != post.entries()[b].0 by {
                        let a0: int = if a < i { a } else { a + 1 };
                        let b0: int = if b < i { b } else { b + 1 };
                        assert(post.entries()[a] == pre.entries()[a0]);
                        assert(post.entries()[b] == pre.entries()[b0]);
                        assert(pre.entries()[a0].0 != pre.entries()[b0].0);
                    }
                    assert forall|k: int|
                        0 <= k < post.entries().len() implies post.allocator().is_live(
                        post.entries()[k].0,
                    ) by {
                        let k0: int = if k < i { k } else { k + 1 };
                        assert(post.entries()[k] == pre.entries()[k0]);
                        assert(pre.allocator().is_live(pre.entries()[k0].0));
                    }
                    assert(!post.is_registered(id)) by {
                        if post.is_registered(id) {
                            let k = choose|k: int|
                                0 <= k < post.ids().len() && post.ids()[k] == id;
                            let k0: int = if k < i { k } else { k + 1 };
                            assert(pre.entries()[k0].0 == id);
                            if k0 < i {
                                assert(pre.entries()[k0].0 != pre.entries()[i as int].0);
                            } else {
                                assert(pre.entries()[i as int].0 != pre.entries()[k0].0);
                            }
                        }
                    }
                    assert forall|x: u64|
                        x != id implies post.is_registered(x) == pre.is_registered(x) by {
                        if pre.is_registered(x) {
                            let k0 = choose|k0: int|
                                0 <= k0 < pre.ids().len() && pre.ids()[k0] == x;
                            if k0 < i {
                                assert(post.ids()[k0] == x);
                            } else {
                                assert(pre.entries()[k0].0 == x);
                                assert(k0 != i);
                                assert(post.ids()[k0 - 1] == x);
                            }
                        }
                        if post.is_registered(x) {
                            let k = choose|k: int|
                                0 <= k < post.ids().len() && post.ids()[k] == x;
                            let k0: int = if k < i { k } else { k + 1 };
                            assert(pre.ids()[k0] == x);
                        }
                    }
                }
                return ;
            }
            i = i + 1;
        }
        proof {
            if old(self).is_registered(id) {
                lemma_registered_index(*old(self), id);
            }
        }
    }

    /// Reads the exit flag of the worker registered under `id`, or `None`
    /// if no such worker exists.
    pub fn exit_requested(&self, id: u64) -> (r: Option<bool>)
        requires
            self.wf(),
        ensures
            r is Some <==> self.is_registered(id),
            self.is_registered(id) ==> r->0 == self.state_of(id).is_exit_requested(),
    {
        let n = self.workers.len();
        let mut i: usize = 0;
        while i < n
            invariant
                self.wf(),
                n == self.workers@.len(),
                i <= n,
                forall|j: int| 0 <= j < i ==> #[trigger] self.workers@[j].0 != id,
            decreases n - i,
        {
            if self.workers[i].0 == id {
                proof {
                    lemma_entry_lookup(*self, i as int);
                }
                return Some(self.workers[i].1.exit_requested);
            }
            i = i + 1;
        }
        proof {
            if self.is_registered(id) {
                lemma_registered_index(*self, id);
            }
        }
        None
    }

    /// Returns a worker's id to the allocator once its registry entry is
    /// gone.  Used only by the worker's one-time cleanup.
    pub fn release_id(&mut self, id: u64)
        requires
            old(self).wf(),
            old(self).allocator().is_live(id),
            !old(self).is_registered(id),
        ensures
            final(self).wf(),
            final(self).entries() == old(self).entries(),
            final(self).messages() == old(self).messages(),
            !final(self).allocator().is_live(id),
            forall|x: u64|
                x != id ==> final(self).allocator().is_live(x) == old(self).allocator().is_live(
                    x,
                ),
            final(self).allocator().counter() == old(self).allocator().counter(),
    {
        proof {
            assert forall|i: int|
                0 <= i < old(self).entries().len() implies old(self).entries()[i].0 != id by {
                if old(self).entries()[i].0 == id {
                    assert(old(self).ids()[i] == id);
                }
            }
        }
        self.id_gen.free_id(id);
        proof {
            assert forall|i: int, j: int|
                0 <= i < j < self.entries().len() implies self.entries()[i].0
                != self.entries()[j].0 by {
                assert(old(self).entries()[i].0 != old(self).entries()[j].0);
            }
            assert forall|i: int|
                0 <= i < self.entries().len() implies self.allocator().is_live(
                self.entries()[i].0,
            ) by {
                assert(old(self).allocator().is_live(old(self).entries()[i].0));
                assert(old(self).entries()[i].0 != id);
            }
        }
    }

    /// A point-in-time count of registered workers.
    pub fn len(&self) -> (r: usize)
        ensures
            r == self.entries().len(),
    {
        self.workers.len()
    }

    /// Non-blocking pop of the oldest queued message; `None` is the normal
    /// empty-queue result, not an error.
    pub fn read_message(&mut self) -> (r: Option<WorkerMessage>)
        requires
            old(self).wf(),
        ensures
            final(self).wf(),
            final(self).entries() == old(self).entries(),
            final(self).allocator() == old(self).allocator(),
            old(self).messages().len() == 0 ==> r is None && *final(self) == *old(self),
            old(self).messages().len() > 0 ==> {
                &&& r is Some
                &&& r->0 == old(self).messages()[0]
                &&& final(self).messages() == old(self).messages().drop_first()
            },
    {
        if self.worker_messages.len() > 0 {
            let m = self.worker_messages.remove(0);
            proof {
                assert(self.messages() =~= old(self).messages().drop_first());
                lemma_wf_same_entries(*old(self), *self);
            }
            Some(m)
        } else {
            None
        }
    }

    /// Sets the flags of the entry registered under `id`: the exit flag is
    /// set if `set_exit` holds (never cleared), and the pending-wait flag
    /// becomes `new_waiting`.  Returns the previous pending-wait flag, or
    /// `None` if no such entry exists.
    pub(crate) fn set_entry_flags(&mut self, id: u64, set_exit: bool, new_waiting: bool) -> (r: Option<
        bool,
    >)
        requires
            old(self).wf(),
        ensures
            final(self).wf(),
            r is Some <==> old(self).is_registered(id),
            !old(self).is_registered(id) ==> *final(self) == *old(self),
            old(self).is_registered(id) ==> {
                &&& r->0 == old(self).state_of(id).is_waiting()
                &&& same_entries_except(*old(self), *final(self), id)
                &&& final(self).is_registered(id)
                &&& final(self).state_of(id).is_exit_requested() == (old(self).state_of(
                    id,
                ).is_exit_requested() || set_exit)
                &&& final(self).state_of(id).is_waiting() == new_waiting
                &&& final(self).messages() == old(self).messages()
                &&& final(self).allocator() == old(self).allocator()
            },
    {
        let n = self.workers.len();
        let mut i: usize = 0;
        while i < n
            invariant
                old(self).wf(),
                *self == *old(self),
                n == self.workers@.len(),
                i <= n,
                forall|j: int| 0 <= j < i ==> #[trigger] self.workers@[j].0 != id,
            decreases n - i,
        {
            if self.workers[i].0 == id {
                let was_waiting = self.workers[i].1.waiting;
                let was_exit = self.workers[i].1.exit_requested;
                self.workers[i] = (
                    id,
                    WorkerState { exit_requested: was_exit || set_exit, waiting: new_waiting },
                );
                proof {
                    let pre = *old(self);
                    let post = *self;
                    lemma_entry_lookup(pre, i as int);
                    assert forall|a: int, b: int|
                        0 <= a < b < post.entries().len() implies post.entries()[a].0
                        != post.entries()[b].0 by {
                        assert(pre.entries()[a].0 != pre.entries()[b].0);
                    }
                    assert forall|k: int|
                        0 <= k < post.entries().len() implies post.allocator().is_live(
                        post.entries()[k].0,
                    ) by {
                        assert(pre.allocator().is_live(pre.entries()[k].0));
                    }
                    lemma_entry_lookup(post, i as int);
                }
                return Some(was_waiting);
            }
            i = i + 1;
        }
        proof {
            if old(self).is_registered(id) {
                lemma_registered_index(*old(self), id);
            }
        }
        None
    }
}

impl Worker {
    /// Reads this worker's exit flag; no side effect.
    pub fn should_exit(&self, m: &WorkerManager) -> (r: bool)
        requires
            m.wf(),
            m.is_registered(self.spec_id()),
        ensures
            r == m.state_of(self.spec_id()).is_exit_requested(),
    {
        let n = m.workers.len();
        let mut i: usize = 0;
        while i < n
            invariant
                m.wf(),
                m.is_registered(self.spec_id()),
                n == m.workers@.len(),
                i <= n,
                forall|j: int| 0 <= j < i ==> #[trigger] m.workers@[j].0 != self.spec_id(),
            decreases n - i,
        {
            if m.workers[i].0 == self.id {
                proof {
                    lemma_entry_lookup(*m, i as int);
                }
                return m.workers[i].1.exit_requested;
            }
            i = i + 1;
        }
        proof {
            lemma_registered_index(*m, self.spec_id());
        }
        vstd::pervasive::unreached()
    }

    /// Pushes this worker's outcome onto the shared queue.  Never blocks
    /// and never fails: the queue grows by exactly this message.
    pub fn send_message(&self, m: &mut WorkerManager, data: Result<VoteResponse, PollError>)
        requires
            old(m).wf(),
        ensures
            final(m).wf(),
            final(m).entries() == old(m).entries(),
            final(m).allocator() == old(m).allocator(),
            final(m).messages() == old(m).messages().push(
                (WorkerMessage { id: self.spec_id(), data: data }),
            ),
    {
        self.manager_push(m, data)
    }

    fn manager_push(&self, m: &mut WorkerManager, data: Result<VoteResponse, PollError>)
        requires
            old(m).wf(),
        ensures
            final(m).wf(),
            final(m).entries() == old(m).entries(),
            final(m).allocator() == old(m).allocator(),
            final(m).messages() == old(m).messages().push(
                (WorkerMessage { id: self.spec_id(), data: data }),
            ),
    {
        m.worker_messages.push(WorkerMessage { id: self.id, data });
        proof {
            lemma_wf_same_entries(*old(m), *m);
        }
    }

    /// Sets this worker's exit flag, then wakes it if it is currently in an
    /// interruptible wait; returns whether a waiter existed.  The worker
    /// observes the flag on its own next check either way.
    pub fn request_shutdown(&self, m: &mut WorkerManager) -> (r: bool)
        requires
            old(m).wf(),
        ensures
            final(m).wf(),
            r == (old(m).is_registered(self.spec_id()) && old(m).state_of(
                self.spec_id(),
            ).is_waiting()),
            !old(m).is_registered(self.spec_id()) ==> *final(m) == *old(m),
            old(m).is_registered(self.spec_id()) ==> {
                &&& same_entries_except(*old(m), *final(m), self.spec_id())
                &&& final(m).is_registered(self.spec_id())
                &&& final(m).state_of(self.spec_id()).is_exit_requested()
                &&& !final(m).state_of(self.spec_id()).is_waiting()
                &&& final(m).messages() == old(m).messages()
                &&& final(m).allocator() == old(m).allocator()
            },
    {
        match m.set_entry_flags(self.id, true, false) {
            Some(was_waiting) => was_waiting,
            None => false,
        }
    }

    /// If a wait is pending for this worker, signals it to return
    /// immediately; returns whether one existed.
    pub fn wake(&self, m: &mut WorkerManager) -> (r: bool)
        requires
            old(m).wf(),
        ensures
            final(m).wf(),
            r == (old(m).is_registered(self.spec_id()) && old(m).state_of(
                self.spec_id(),
            ).is_waiting()),
            !old(m).is_registered(self.spec_id()) ==> *final(m) == *old(m),
            old(m).is_registered(self.spec_id()) ==> {
                &&& same_entries_except(*old(m), *final(m), self.spec_id())
                &&& final(m).is_registered(self.spec_id())
                &&& final(m).state_of(self.spec_id()).is_exit_requested() == old(m).state_of(
                    self.spec_id(),
                ).is_exit_requested()
                &&& !final(m).state_of(self.spec_id()).is_waiting()
                &&& final(m).messages() == old(m).messages()
                &&& final(m).allocator() == old(m).allocator()
            },
    {
        match m.set_entry_flags(self.id, false, false) {
            Some(was_waiting) => was_waiting,
            None => false,
        }
    }

    /// Marks an interruptible wait as pending.  The task then waits outside
    /// the library until the duration elapses or a wake arrives, whichever
    /// first, and finishes the wait with [`Worker::end_sleep`].  Issuing a
    /// new wait while one is pending replaces it; the design uses at most
    /// one outstanding wait per worker.
    pub fn begin_sleep(&self, m: &mut WorkerManager)
        requires
            old(m).wf(),
            old(m).is_registered(self.spec_id()),
        ensures
            final(m).wf(),
            same_entries_except(*old(m), *final(m), self.spec_id()),
            final(m).is_registered(self.spec_id()),
            final(m).state_of(self.spec_id()).is_exit_requested() == old(m).state_of(
                self.spec_id(),
            ).is_exit_requested(),
            final(m).state_of(self.spec_id()).is_waiting(),
            final(m).messages() == old(m).messages(),
            final(m).allocator() == old(m).allocator(),
    {
        let _ = m.set_entry_flags(self.id, false, true);
    }

    /// Clears the pending wait once the task's timed wait has returned,
    /// whatever its cause; the caller re-checks the exit flag afterwards.
    pub fn end_sleep(&self, m: &mut WorkerManager)
        requires
            old(m).wf(),
            old(m).is_registered(self.spec_id()),
        ensures
            final(m).wf(),
            same_entries_except(*old(m), *final(m), self.spec_id()),
            final(m).is_registered(self.spec_id()),
            final(m).state_of(self.spec_id()).is_exit_requested() == old(m).state_of(
                self.spec_id(),
            ).is_exit_requested(),
            !final(m).state_of(self.spec_id()).is_waiting(),
            final(m).messages() == old(m).messages(),
            final(m).allocator() == old(m).allocator(),
    {
        let _ = m.set_entry_flags(self.id, false, false);
    }
}

/// The registry invariant carries over to a state with the same entries
/// and allocator, whatever happened to the message queue.
proof fn lemma_wf_same_entries(pre: WorkerManager, post: WorkerManager)
    requires
        pre.wf(),
        post.entries() == pre.entries(),
        post.allocator() == pre.allocator(),
    ensures
        post.wf(),
{
    assert forall|i: int, j: int|
        0 <= i < j < post.entries().len() implies post.entries()[i].0
        != post.entries()[j].0 by {
        assert(pre.entries()[i].0 != pre.entries()[j].0);
    }
    assert forall|i: int|
        0 <= i < post.entries().len() implies post.allocator().is_live(post.entries()[i].0) by {
        assert(pre.allocator().is_live(pre.entries()[i].0));
    }
}

/// Looking up the id stored at a valid index finds exactly that index.
pub proof fn lemma_entry_lookup(m: WorkerManager, i: int)
    requires
        m.ids_distinct(),
        0 <= i < m.entries().len(),
    ensures
        m.is_registered(m.entries()[i].0),
        m.index_of(m.entries()[i].0) == i,
        m.state_of(m.entries()[i].0) == m.entries()[i].1,
{
    let id = m.entries()[i].0;
    assert(m.ids()[i] == id);
    let j = m.index_of(id);
    assert(0 <= j < m.entries().len() && m.entries()[j].0 == id);
    if i < j {
        assert(m.entries()[i].0 != m.entries()[j].0);
    }
    if j < i {
        assert(m.entries()[j].0 != m.entries()[i].0);
    }
}

/// A registered id is stored at its `index_of` position.
pub proof fn lemma_registered_index(m: WorkerManager, id: u64)
    requires
        m.is_registered(id),
    ensures
        0 <= m.index_of(id) < m.entries().len(),
        m.entries()[m.index_of(id)].0 == id,
{
    let k = choose|k: int| 0 <= k < m.ids().len() && m.ids()[k] == id;
    assert(m.entries()[k].0 == id);
}

/// An id the allocator does not consider live is registered to no worker:
/// `get_id` therefore never returns an id a live worker holds.
pub proof fn lemma_fresh_id_not_registered(m: WorkerManager, id: u64)
    requires
        m.wf(),
        !m.allocator().is_live(id),
    ensures
        !m.is_registered(id),
{
    if m.is_registered(id) {
        lemma_registered_index(m, id);
        assert(m.allocator().is_live(m.entries()[m.index_of(id)].0));
    }
}

} // verus!
