//! The orchestrator: endpoint claims, the shutdown flag, spawning, and
//! graceful shutdown.
//!
//! The manager owns the dedup set of proxy endpoints claimed by live
//! workers and the process-wide shutdown flag, and composes them with the
//! worker registry.  Claiming an endpoint (contains-check plus insert) is a
//! single step of the model, matching the single critical section the
//! running system takes around it.

use vstd::prelude::*;
use crate::quiz::Quiz;
use crate::worker_manager::{same_entries_except, Worker, WorkerManager, WorkerMessage};

verus! {

#[verifier::external_type_specification]
#[verifier::external_body]
pub struct ExClient(reqwest::Client);

#[verifier::external_type_specification]
#[verifier::external_body]
pub struct ExReqwestError(reqwest::Error);

/// Seconds each proxied vote request may take before it times out.
pub const VOTE_TIMEOUT_SECS: u64 = 10;

/// Why a spawn attempt failed.  Every failure is per-candidate and soft:
/// it is collected into the batch result and never aborts sibling spawns.
#[derive(Debug)]
pub enum SpawnError {
    /// The endpoint is already claimed by a live worker.
    DuplicateProxy,
    /// The shutdown flag was set; no new claim or spawn may succeed.
    Shutdown,
    /// The endpoint-bound client could not be constructed.
    Reqwest(reqwest::Error),
}

/// A successfully spawned worker: the task-side handle and the client
/// routed through the worker's claimed endpoint.  The caller starts the
/// worker's task loop with these.
pub struct SpawnedWorker {
    pub worker: Worker,
    pub client: reqwest::Client,
}

/// Relies on `reqwest::Proxy::all` and `reqwest::ClientBuilder` (`proxy`,
/// `timeout`, `build`): constructs a client that routes every request
/// through the given proxy URL with the given request timeout.
/// Construction depends on the machine's network stack, so nothing is
/// promised of the outcome.
#[verifier::external_body]
fn build_proxied_client(url: &str, timeout_secs: u64) -> Result<reqwest::Client, reqwest::Error> {
    let proxy = reqwest::Proxy::all(url)?;
    reqwest::Client::builder()
        .proxy(proxy)
        .timeout(std::time::Duration::from_secs(timeout_secs))
        .build()
}

/// The views of a sequence of strings.
pub open spec fn views_of(s: Seq<String>) -> Seq<Seq<char>> {
    Seq::new(s.len(), |i: int| s[i]@)
}

/// Owns the dedup set of claimed endpoints and the global shutdown flag;
/// runs the probe-filter-spawn cycle and drives graceful shutdown.
pub struct Manager {
    ip_set: Vec<String>,
    is_shutdown: bool,
    worker_manager: WorkerManager,
    quiz: Quiz,
    option: usize,
}

/// Fields a spawn or cleanup never touches: the poll, the chosen answer,
/// and the shutdown flag.
pub open spec fn unchanged_context(pre: Manager, post: Manager) -> bool {
    &&& post.spec_quiz() == pre.spec_quiz()
    &&& post.spec_option() == pre.spec_option()
    &&& post.spec_is_shutdown() == pre.spec_is_shutdown()
}

/// Everything `try_spawn_worker` does, as a relation between the states
/// around the call, the candidate endpoint, and the result.
pub open spec fn try_spawn_transition(
    pre: Manager,
    post: Manager,
    url: Seq<char>,
    r: Result<SpawnedWorker, SpawnError>,
) -> bool {
    &&& unchanged_context(pre, post)
    &&& pre.spec_is_shutdown() ==> ((r matches Err(e) && e is Shutdown) && post == pre)
    &&& !pre.spec_is_shutdown() && pre.is_claimed(url) ==> ((r matches Err(e)
        && e is DuplicateProxy) && post == pre)
    &&& !pre.spec_is_shutdown() && !pre.is_claimed(url) ==> {
        &&& post.claims() == pre.claims().push(url)
        &&& match r {
            Err(e) => e is Reqwest && post.pool() == pre.pool(),
            Ok(sw) => {
                &&& !sw.worker.is_cleaned()
                &&& sw.worker.spec_endpoint() == url
                &&& !pre.pool().is_registered(sw.worker.spec_id())
                &&& !pre.pool().allocator().is_live(sw.worker.spec_id())
                &&& post.pool().is_registered(sw.worker.spec_id())
                &&& post.pool().allocator().is_live(sw.worker.spec_id())
                &&& forall|id: u64|
                    id != sw.worker.spec_id() ==> post.pool().allocator().is_live(id)
                        == pre.pool().allocator().is_live(id)
                &&& post.pool().allocator().counter() <= pre.pool().allocator().counter() + 1
                &&& post.pool().entries().len() == pre.pool().entries().len() + 1
                &&& forall|i: int|
                    0 <= i < pre.pool().entries().len() ==> #[trigger] post.pool().entries()[i]
                        == pre.pool().entries()[i]
                &&& post.pool().entries().last().0 == sw.worker.spec_id()
                &&& !post.pool().entries().last().1.is_exit_requested()
                &&& !post.pool().entries().last().1.is_waiting()
                &&& post.pool().messages() == pre.pool().messages()
            },
        }
    }
}

/// Everything a worker's one-time cleanup does: the first call unregisters
/// the worker, frees its id and releases its endpoint claim; any later
/// call changes nothing.
pub open spec fn cleanup_transition(
    wpre: Worker,
    wpost: Worker,
    pre: Manager,
    post: Manager,
) -> bool {
    &&& wpost.spec_id() == wpre.spec_id()
    &&& wpost.spec_endpoint() == wpre.spec_endpoint()
    &&& wpost.is_cleaned()
    &&& unchanged_context(pre, post)
    &&& wpre.is_cleaned() ==> post == pre && wpost == wpre
    &&& !wpre.is_cleaned() ==> {
        &&& !post.pool().is_registered(wpre.spec_id())
        &&& forall|x: u64|
            x != wpre.spec_id() ==> post.pool().is_registered(x) == pre.pool().is_registered(x)
        &&& post.pool().entries().len() == pre.pool().entries().len() - 1
        &&& !post.pool().allocator().is_live(wpre.spec_id())
        &&& forall|x: u64|
            x != wpre.spec_id() ==> post.pool().allocator().is_live(x)
                == pre.pool().allocator().is_live(x)
        &&& post.pool().allocator().counter() == pre.pool().allocator().counter()
        &&& post.pool().messages() == pre.pool().messages()
        &&& !post.is_claimed(wpre.spec_endpoint())
        &&& forall|u: Seq<char>|
            u != wpre.spec_endpoint() ==> post.is_claimed(u) == pre.is_claimed(u)
        &&& post.claims().len() == pre.claims().len() - 1
    }
}

/// The batch spawn, as the sequential composition of one
/// `try_spawn_worker` transition per candidate, in order.
pub open spec fn spawn_all_transition(
    pre: Manager,
    post: Manager,
    urls: Seq<Seq<char>>,
    rs: Seq<Result<SpawnedWorker, SpawnError>>,
) -> bool
    decreases urls.len(),
{
    if urls.len() == 0 {
        &&& post == pre
        &&& rs.len() == 0
    } else {
        &&& rs.len() == urls.len()
        &&& exists|mid: Manager|
            #[trigger] try_spawn_transition(pre, mid, urls.first(), rs.first())
                && spawn_all_transition(mid, post, urls.drop_first(), rs.drop_first())
    }
}

/// Appending one more spawn to a batch composes the transitions.
proof fn lemma_spawn_all_snoc(
    pre: Manager,
    mid: Manager,
    post: Manager,
    urls: Seq<Seq<char>>,
    rs: Seq<Result<SpawnedWorker, SpawnError>>,
    u: Seq<char>,
    r: Result<SpawnedWorker, SpawnError>,
)
    requires
        spawn_all_transition(pre, mid, urls, rs),
        try_spawn_transition(mid, post, u, r),
    ensures
        spawn_all_transition(pre, post, urls.push(u), rs.push(r)),
    decreases urls.len(),
{
    if urls.len() == 0 {
        assert(urls.push(u).first() == u);
        assert(rs.push(r).first() == r);
        assert(urls.push(u).drop_first() =~= Seq::<Seq<char>>::empty());
        assert(rs.push(r).drop_first() =~= Seq::<Result<SpawnedWorker, SpawnError>>::empty());
        assert(try_spawn_transition(pre, post, urls.push(u).first(), rs.push(r).first()));
        assert(spawn_all_transition(
            post,
            post,
            urls.push(u).drop_first(),
            rs.push(r).drop_first(),
        ));
    } else {
        let mid1 = choose|m1: Manager|
            #[trigger] try_spawn_transition(pre, m1, urls.first(), rs.first())
                && spawn_all_transition(m1, mid, urls.drop_first(), rs.drop_first());
        lemma_spawn_all_snoc(mid1, mid, post, urls.drop_first(), rs.drop_first(), u, r);
        assert(urls.push(u).first() == urls.first());
        assert(rs.push(r).first() == rs.first());
        assert(urls.push(u).drop_first() =~= urls.drop_first().push(u));
        assert(rs.push(r).drop_first() =~= rs.drop_first().push(r));
        assert(try_spawn_transition(pre, mid1, urls.push(u).first(), rs.push(r).first()));
        assert(spawn_all_transition(
            mid1,
            post,
            urls.push(u).drop_first(),
            rs.push(r).drop_first(),
        ));
    }
}

impl Manager {
    /// The claimed endpoints, as character sequences, in claim order.
    pub closed spec fn claims(self) -> Seq<Seq<char>> {
        Seq::new(self.ip_set@.len(), |i: int| self.ip_set@[i]@)
    }

    pub open spec fn is_claimed(self, url: Seq<char>) -> bool {
        self.claims().contains(url)
    }

    /// The process-wide shutdown flag; monotonic, set only by `exit`.
    pub closed spec fn spec_is_shutdown(self) -> bool {
        self.is_shutdown
    }

    /// The worker registry's state.
    pub closed spec fn pool(self) -> WorkerManager {
        self.worker_manager
    }

    pub closed spec fn spec_quiz(self) -> Quiz {
        self.quiz
    }

    pub closed spec fn spec_option(self) -> usize {
        self.option
    }

    /// No endpoint appears twice in the claim set.
    pub open spec fn claims_distinct(self) -> bool {
        forall|i: int, j: int|
            0 <= i < j < self.claims().len() ==> self.claims()[i] != self.claims()[j]
    }

    /// Manager invariant: the registry is well formed and no endpoint is
    /// claimed twice.
    pub open spec fn wf(self) -> bool {
        &&& self.pool().wf()
        &&& self.claims_distinct()
    }

    pub fn new(quiz: Quiz, option: usize) -> (r: Self)
        ensures
            r.wf(),
            r.claims() == Seq::<Seq<char>>::empty(),
            !r.spec_is_shutdown(),
            r.pool().entries() == Seq::<(u64, crate::worker_manager::WorkerState)>::empty(),
            r.pool().messages() == Seq::<WorkerMessage>::empty(),
            r.pool().allocator().counter() == 0,
            r.spec_quiz() == quiz,
            r.spec_option() == option,
    {
        let r = Manager {
            ip_set: Vec::new(),
            is_shutdown: false,
            worker_manager: WorkerManager::new(),
            quiz,
            option,
        };
        proof {
            assert(r.claims() =~= Seq::<Seq<char>>::empty());
        }
        r
    }

    /// The poll this manager votes on.
    pub fn quiz(&self) -> (r: &Quiz)
        ensures
            *r == self.spec_quiz(),
    {
        &self.quiz
    }

    /// The index of the answer being voted for.
    pub fn option(&self) -> (r: usize)
        ensures
            r == self.spec_option(),
    {
        self.option
    }

    /// A point-in-time count of live workers; advisory under concurrency.
    pub fn len(&self) -> (r: usize)
        ensures
            r == self.pool().entries().len(),
    {
        self.worker_manager.len()
    }

    /// Non-blocking pop of the oldest worker message.
    pub fn read_message(&mut self) -> (r: Option<WorkerMessage>)
        requires
            old(self).wf(),
        ensures
            final(self).wf(),
            unchanged_context(*old(self), *final(self)),
            final(self).claims() == old(self).claims(),
            final(self).pool().entries() == old(self).pool().entries(),
            final(self).pool().allocator() == old(self).pool().allocator(),
            old(self).pool().messages().len() == 0 ==> r is None && *final(self) == *old(self),
            old(self).pool().messages().len() > 0 ==> {
                &&& r is Some
                &&& r->0 == old(self).pool().messages()[0]
                &&& final(self).pool().messages() == old(self).pool().messages().drop_first()
            },
    {
        let r = self.worker_manager.read_message();
        proof {
            assert(self.claims() =~= old(self).claims());
            lemma_wf_same_claims(*old(self), *self);
        }
        r
    }

    /// Requests shutdown of the worker registered under `id`, if any.
    pub fn shutdown_worker(&mut self, id: u64) -> (r: Option<()>)
        requires
            old(self).wf(),
        ensures
            final(self).wf(),
            unchanged_context(*old(self), *final(self)),
            final(self).claims() == old(self).claims(),
            r is Some <==> old(self).pool().is_registered(id),
            !old(self).pool().is_registered(id) ==> *final(self) == *old(self),
            old(self).pool().is_registered(id) ==> {
                &&& same_entries_except(old(self).pool(), final(self).pool(), id)
                &&& final(self).pool().is_registered(id)
                &&& final(self).pool().state_of(id).is_exit_requested()
                &&& !final(self).pool().state_of(id).is_waiting()
                &&& final(self).pool().messages() == old(self).pool().messages()
                &&& final(self).pool().allocator() == old(self).pool().allocator()
            },
    {
        let r = self.worker_manager.shutdown_worker(id);
        proof {
            assert(self.claims() =~= old(self).claims());
            lemma_wf_same_claims(*old(self), *self);
        }
        r
    }

    /// Whether `url` is currently claimed by a live worker.
    pub fn is_endpoint_claimed(&self, url: &String) -> (r: bool)
        ensures
            r == self.is_claimed(url@),
    {
        contains_url(&self.ip_set, url)
    }

    /// The task-side check of a worker's exit flag.  A worker whose entry
    /// is gone is told to exit.
    pub fn worker_should_exit(&self, w: &Worker) -> (r: bool)
        requires
            self.wf(),
        ensures
            r == if self.pool().is_registered(w.spec_id()) {
                self.pool().state_of(w.spec_id()).is_exit_requested()
            } else {
                true
            },
    {
        match self.worker_manager.exit_requested(w.id()) {
            Some(b) => b,
            None => true,
        }
    }

    /// Pushes one worker's outcome onto the shared queue; never blocks and
    /// never fails.
    pub fn post_message(&mut self, w: &Worker, data: Result<
        crate::vote_response::VoteResponse,
        crate::error::PollError,
    >)
        requires
            old(self).wf(),
        ensures
            final(self).wf(),
            unchanged_context(*old(self), *final(self)),
            final(self).claims() == old(self).claims(),
            final(self).pool().entries() == old(self).pool().entries(),
            final(self).pool().allocator() == old(self).pool().allocator(),
            final(self).pool().messages() == old(self).pool().messages().push(
                (WorkerMessage { id: w.spec_id(), data: data }),
            ),
    {
        w.send_message(&mut self.worker_manager, data);
        proof {
            assert(self.claims() =~= old(self).claims());
            lemma_wf_same_claims(*old(self), *self);
        }
    }

    /// Marks an interruptible wait as pending for `w`, if it is still
    /// registered.  The task then waits outside the library and finishes
    /// with [`Manager::worker_end_sleep`].
    pub fn worker_begin_sleep(&mut self, w: &Worker)
        requires
            old(self).wf(),
        ensures
            final(self).wf(),
            unchanged_context(*old(self), *final(self)),
            final(self).claims() == old(self).claims(),
            !old(self).pool().is_registered(w.spec_id()) ==> *final(self) == *old(self),
            old(self).pool().is_registered(w.spec_id()) ==> {
                &&& same_entries_except(old(self).pool(), final(self).pool(), w.spec_id())
                &&& final(self).pool().is_registered(w.spec_id())
                &&& final(self).pool().state_of(w.spec_id()).is_waiting()
                &&& final(self).pool().state_of(w.spec_id()).is_exit_requested() == old(
                    self,
                ).pool().state_of(w.spec_id()).is_exit_requested()
                &&& final(self).pool().messages() == old(self).pool().messages()
                &&& final(self).pool().allocator() == old(self).pool().allocator()
            },
    {
        let _ = self.worker_manager.set_entry_flags(w.id(), false, true);
        proof {
            assert(self.claims() =~= old(self).claims());
            lemma_wf_same_claims(*old(self), *self);
        }
    }

    /// Clears the pending wait once the task's timed wait has returned,
    /// whatever its cause; the task re-checks the exit flag afterwards.
    pub fn worker_end_sleep(&mut self, w: &Worker)
        requires
            old(self).wf(),
        ensures
            final(self).wf(),
            unchanged_context(*old(self), *final(self)),
            final(self).claims() == old(self).claims(),
            !old(self).pool().is_registered(w.spec_id()) ==> *final(self) == *old(self),
            old(self).pool().is_registered(w.spec_id()) ==> {
                &&& same_entries_except(old(self).pool(), final(self).pool(), w.spec_id())
                &&& final(self).pool().is_registered(w.spec_id())
                &&& !final(self).pool().state_of(w.spec_id()).is_waiting()
                &&& final(self).pool().state_of(w.spec_id()).is_exit_requested() == old(
                    self,
                ).pool().state_of(w.spec_id()).is_exit_requested()
                &&& final(self).pool().messages() == old(self).pool().messages()
                &&& final(self).pool().allocator() == old(self).pool().allocator()
            },
    {
        let _ = self.worker_manager.set_entry_flags(w.id(), false, false);
        proof {
            assert(self.claims() =~= old(self).claims());
            lemma_wf_same_claims(*old(self), *self);
        }
    }

    /// Attempts to claim `url` and spawn a worker bound to it.
    ///
    /// With the shutdown flag set, fails with `Shutdown` and no side
    /// effect.  If the endpoint is already claimed, fails with
    /// `DuplicateProxy` and no side effect.  Otherwise the endpoint is
    /// claimed, and the attempt succeeds exactly when the endpoint-bound
    /// client can be constructed; on a `Reqwest` failure the claim is
    /// deliberately kept, so a bad endpoint is not retried hot ("poisoned"
    /// rather than released).
    pub fn try_spawn_worker(&mut self, url: &String) -> (r: Result<SpawnedWorker, SpawnError>)
        requires
            old(self).wf(),
            old(self).pool().allocator().counter() < u64::MAX,
        ensures
            final(self).wf(),
            try_spawn_transition(*old(self), *final(self), url@, r),
    {
        if self.is_shutdown {
            return Err(SpawnError::Shutdown);
        }
        if contains_url(&self.ip_set, url) {
            return Err(SpawnError::DuplicateProxy);
        }
        self.ip_set.push(url.clone());
        proof {
            assert(self.claims() =~= old(self).claims().push(url@));
        }
        let client = match build_proxied_client(url.as_str(), VOTE_TIMEOUT_SECS) {
            Ok(c) => c,
            Err(e) => {
                return Err(SpawnError::Reqwest(e));
            },
        };
        Ok(self.spawn_with_client(url, client))
    }

    /// The tail of a spawn once the endpoint claim is taken and the
    /// endpoint-bound client is in hand: registering the worker, which no
    /// outside call can fail.  Always succeeds.
    pub fn spawn_with_client(&mut self, url: &String, client: reqwest::Client) -> (r:
        SpawnedWorker)
        requires
            old(self).wf(),
            old(self).pool().allocator().counter() < u64::MAX,
        ensures
            final(self).wf(),
            unchanged_context(*old(self), *final(self)),
            final(self).claims() == old(self).claims(),
            !r.worker.is_cleaned(),
            r.worker.spec_endpoint() == url@,
            !old(self).pool().is_registered(r.worker.spec_id()),
            !old(self).pool().allocator().is_live(r.worker.spec_id()),
            final(self).pool().is_registered(r.worker.spec_id()),
            final(self).pool().allocator().is_live(r.worker.spec_id()),
            forall|id: u64|
                id != r.worker.spec_id() ==> final(self).pool().allocator().is_live(id) == old(
                    self,
                ).pool().allocator().is_live(id),
            final(self).pool().allocator().counter() <= old(self).pool().allocator().counter()
                + 1,
            final(self).pool().entries().len() == old(self).pool().entries().len() + 1,
            forall|i: int|
                0 <= i < old(self).pool().entries().len()
                    ==> #[trigger] final(self).pool().entries()[i]
                    == old(self).pool().entries()[i],
            final(self).pool().entries().last().0 == r.worker.spec_id(),
            !final(self).pool().entries().last().1.is_exit_requested(),
            !final(self).pool().entries().last().1.is_waiting(),
            final(self).pool().messages() == old(self).pool().messages(),
    {
        let worker = self.worker_manager.spawn(url.clone());
        proof {
            assert(self.claims() =~= old(self).claims());
            lemma_wf_same_claims(*old(self), *self);
        }
        SpawnedWorker { worker, client }
    }

    /// The candidates not currently claimed, in order: the cheap rejection
    /// applied both before probing and again after it.
    pub fn filter_unclaimed(&self, candidates: &Vec<String>) -> (r: Vec<String>)
        ensures
            views_of(r@) == unclaimed_filter(*self, views_of(candidates@)),
    {
        let mut out: Vec<String> = Vec::new();
        let n = candidates.len();
        let mut i: usize = 0;
        proof {
            assert(views_of(out@) =~= unclaimed_filter(*self, views_of(candidates@).take(0)));
        }
        while i < n
            invariant
                n == candidates@.len(),
                i <= n,
                views_of(out@) == unclaimed_filter(*self, views_of(candidates@).take(i as int)),
            decreases n - i,
        {
            let ghost prev = out@;
            if !contains_url(&self.ip_set, &candidates[i]) {
                out.push(candidates[i].clone());
                proof {
                    assert(views_of(out@) =~= views_of(prev).push(candidates@[i as int]@));
                }
            }
            proof {
                let cs = views_of(candidates@);
                assert(cs.take(i + 1).drop_last() =~= cs.take(i as int));
                assert(cs.take(i + 1).last() == cs[i as int]);
                assert(views_of(out@) =~= unclaimed_filter(*self, cs.take(i + 1)));
            }
            i = i + 1;
        }
        proof {
            assert(views_of(candidates@).take(n as int) =~= views_of(candidates@));
        }
        out
    }

    /// Spawns one worker per candidate, in order, collecting one result
    /// per attempt; no failure aborts the batch.
    pub fn spawn_all(&mut self, urls: &Vec<String>) -> (r: Vec<Result<SpawnedWorker, SpawnError>>)
        requires
            old(self).wf(),
            old(self).pool().allocator().counter() + urls@.len() <= u64::MAX,
        ensures
            final(self).wf(),
            unchanged_context(*old(self), *final(self)),
            r@.len() == urls@.len(),
            spawn_all_transition(*old(self), *final(self), views_of(urls@), r@),
            old(self).spec_is_shutdown() ==> *final(self) == *old(self) && forall|i: int|
                0 <= i < r@.len() ==> (#[trigger] r@[i] matches Err(e) && e is Shutdown),
            !old(self).spec_is_shutdown() && pairwise_distinct(views_of(urls@)) && (forall|i: int|
                0 <= i < urls@.len() ==> !old(self).is_claimed(#[trigger] views_of(urls@)[i]))
                ==> {
                &&& final(self).claims() == old(self).claims() + views_of(urls@)
                &&& final(self).pool().messages() == old(self).pool().messages()
                &&& forall|i: int|
                    0 <= i < r@.len() ==> ((#[trigger] r@[i] matches Ok(sw) && {
                        &&& sw.worker.spec_endpoint() == views_of(urls@)[i]
                        &&& !sw.worker.is_cleaned()
                        &&& final(self).pool().is_registered(sw.worker.spec_id())
                    }) || (r@[i] matches Err(e) && e is Reqwest))
            },
    {
        let mut results: Vec<Result<SpawnedWorker, SpawnError>> = Vec::new();
        let n = urls.len();
        let mut i: usize = 0;
        if self.is_shutdown {
            proof {
                assert(spawn_all_transition(
                    *old(self),
                    *self,
                    views_of(urls@).take(0),
                    results@,
                ));
            }
            while i < n
                invariant
                    old(self).wf(),
                    old(self).pool().allocator().counter() + urls@.len() <= u64::MAX,
                    old(self).spec_is_shutdown(),
                    *self == *old(self),
                    n == urls@.len(),
                    i <= n,
                    results@.len() == i,
                    spawn_all_transition(*old(self), *self, views_of(urls@).take(i as int), results@),
                    forall|j: int|
                        0 <= j < i ==> (#[trigger] results@[j] matches Err(e) && e is Shutdown),
                decreases n - i,
            {
                let ghost pre = *self;
                let ghost prev_results = results@;
                let rr = self.try_spawn_worker(&urls[i]);
                proof {
                    let us = views_of(urls@);
                    assert(us[i as int] == urls@[i as int]@);
                    lemma_spawn_all_snoc(
                        *old(self),
                        pre,
                        *self,
                        us.take(i as int),
                        prev_results,
                        us[i as int],
                        rr,
                    );
                    assert(us.take(i + 1) =~= us.take(i as int).push(us[i as int]));
                }
                results.push(rr);
                i = i + 1;
            }
            proof {
                assert(views_of(urls@).take(n as int) =~= views_of(urls@));
            }
            return results;
        }
        proof {
            assert(spawn_all_transition(*old(self), *self, views_of(urls@).take(0), results@));
        }
        while i < n
            invariant
                old(self).wf(),
                self.wf(),
                !old(self).spec_is_shutdown(),
                unchanged_context(*old(self), *self),
                n == urls@.len(),
                i <= n,
                results@.len() == i,
                spawn_all_transition(*old(self), *self, views_of(urls@).take(i as int), results@),
                old(self).pool().allocator().counter() + urls@.len() <= u64::MAX,
                self.pool().allocator().counter() <= old(self).pool().allocator().counter() + i,
                pairwise_distinct(views_of(urls@)) && (forall|j: int|
                    0 <= j < urls@.len() ==> !old(self).is_claimed(#[trigger] views_of(urls@)[j]))
                    ==> {
                    &&& self.claims() == old(self).claims() + views_of(urls@).take(i as int)
                    &&& self.pool().messages() == old(self).pool().messages()
                    &&& forall|j: int|
                        i <= j < urls@.len() ==> !self.is_claimed(#[trigger] views_of(urls@)[j])
                    &&& forall|j: int|
                        0 <= j < i ==> ((#[trigger] results@[j] matches Ok(sw) && {
                            &&& sw.worker.spec_endpoint() == views_of(urls@)[j]
                            &&& !sw.worker.is_cleaned()
                            &&& self.pool().is_registered(sw.worker.spec_id())
                        }) || (results@[j] matches Err(e) && e is Reqwest))
                },
            decreases n - i,
        {
            let ghost pre = *self;
            let ghost prev_results = results@;
            let rr = self.try_spawn_worker(&urls[i]);
            proof {
                let us0 = views_of(urls@);
                assert(us0[i as int] == urls@[i as int]@);
                lemma_spawn_all_snoc(
                    *old(self),
                    pre,
                    *self,
                    us0.take(i as int),
                    prev_results,
                    us0[i as int],
                    rr,
                );
                assert(us0.take(i + 1) =~= us0.take(i as int).push(us0[i as int]));
                if pairwise_distinct(views_of(urls@)) && (forall|j: int|
                    0 <= j < urls@.len() ==> !old(self).is_claimed(
                        #[trigger] views_of(urls@)[j],
                    )) {
                    let us = views_of(urls@);
                    assert(!pre.is_claimed(us[i as int]));
                    assert(self.claims() =~= pre.claims().push(us[i as int]));
                    assert(self.claims() =~= old(self).claims() + us.take(i + 1));
                    assert forall|j: int| i + 1 <= j < us.len() implies !self.is_claimed(
                        #[trigger] us[j],
                    ) by {
                        if self.is_claimed(us[j]) {
                            let k = choose|k: int|
                                0 <= k < self.claims().len() && self.claims()[k] == us[j];
                            if k < pre.claims().len() {
                                assert(pre.claims()[k] == us[j]);
                            } else {
                                assert(us[i as int] == us[j]);
                            }
                        }
                    }
                    assert forall|j: int| 0 <= j < i implies ((#[trigger] results@[j] matches
                        Ok(sw) && {
                        &&& sw.worker.spec_endpoint() == views_of(urls@)[j]
                        &&& !sw.worker.is_cleaned()
                        &&& self.pool().is_registered(sw.worker.spec_id())
                    }) || (results@[j] matches Err(e) && e is Reqwest)) by {
                        if results@[j] is Ok {
                            let sw = results@[j]->Ok_0;
                            assert(pre.pool().is_registered(sw.worker.spec_id()));
                            lemma_registered_preserved(
                                pre.pool(),
                                self.pool(),
                                sw.worker.spec_id(),
                            );
                        }
                    }
                }
            }
            results.push(rr);
            i = i + 1;
        }
        proof {
            assert(views_of(urls@).take(n as int) =~= views_of(urls@));
        }
        results
    }

    /// Sets the shutdown flag, requests shutdown of every live worker, and
    /// drains the message queue.  Soft shutdown only: no in-flight work is
    /// cancelled, and the caller waits its own grace period before reading
    /// off how many workers remain.
    pub fn exit(&mut self)
        requires
            old(self).wf(),
        ensures
            final(self).wf(),
            final(self).spec_is_shutdown(),
            final(self).claims() == old(self).claims(),
            final(self).spec_quiz() == old(self).spec_quiz(),
            final(self).spec_option() == old(self).spec_option(),
            final(self).pool().entries().len() == old(self).pool().entries().len(),
            forall|i: int|
                0 <= i < old(self).pool().entries().len() ==> {
                    &&& #[trigger] final(self).pool().entries()[i].0 == old(
                        self,
                    ).pool().entries()[i].0
                    &&& final(self).pool().entries()[i].1.is_exit_requested()
                    &&& !final(self).pool().entries()[i].1.is_waiting()
                },
            final(self).pool().messages().len() == 0,
            final(self).pool().allocator() == old(self).pool().allocator(),
    {
        self.is_shutdown = true;
        self.worker_manager.shutdown();
        proof {
            assert(self.claims() =~= old(self).claims());
            lemma_wf_same_claims(*old(self), *self);
        }
    }
}

/// No two elements are equal.
pub open spec fn pairwise_distinct(s: Seq<Seq<char>>) -> bool {
    forall|i: int, j: int| 0 <= i < j < s.len() ==> s[i] != s[j]
}

/// The candidates of `c` not claimed in `m`, in order.
pub open spec fn unclaimed_filter(m: Manager, c: Seq<Seq<char>>) -> Seq<Seq<char>>
    decreases c.len(),
{
    if c.len() == 0 {
        Seq::empty()
    } else {
        let rest = unclaimed_filter(m, c.drop_last());
        if m.is_claimed(c.last()) {
            rest
        } else {
            rest.push(c.last())
        }
    }
}

/// The candidates whose probe reported healthy, in order.
pub open spec fn healthy_filter(c: Seq<Seq<char>>, h: Seq<bool>) -> Seq<Seq<char>>
    recommends
        c.len() == h.len(),
    decreases c.len(),
{
    if c.len() == 0 || h.len() == 0 {
        Seq::empty()
    } else {
        let rest = healthy_filter(c.drop_last(), h.drop_last());
        if h.last() {
            rest.push(c.last())
        } else {
            rest
        }
    }
}

/// Zips candidates with their probe results and keeps the healthy ones:
/// the step between probing and spawning.  A failed or timed-out probe
/// marks its candidate unhealthy for this cycle only.
pub fn keep_healthy(candidates: &Vec<String>, healthy: &Vec<bool>) -> (r: Vec<String>)
    requires
        candidates@.len() == healthy@.len(),
    ensures
        views_of(r@) == healthy_filter(views_of(candidates@), healthy@),
{
    let mut out: Vec<String> = Vec::new();
    let n = candidates.len();
    let mut i: usize = 0;
    proof {
        assert(views_of(out@) =~= healthy_filter(
            views_of(candidates@).take(0),
            healthy@.take(0),
        ));
    }
    while i < n
        invariant
            n == candidates@.len(),
            candidates@.len() == healthy@.len(),
            i <= n,
            views_of(out@) == healthy_filter(
                views_of(candidates@).take(i as int),
                healthy@.take(i as int),
            ),
        decreases n - i,
    {
        let ghost prev = out@;
        if healthy[i] {
            out.push(candidates[i].clone());
            proof {
                assert(views_of(out@) =~= views_of(prev).push(candidates@[i as int]@));
            }
        }
        proof {
            let cs = views_of(candidates@);
            assert(cs.take(i + 1).drop_last() =~= cs.take(i as int));
            assert(healthy@.take(i + 1).drop_last() =~= healthy@.take(i as int));
            assert(cs.take(i + 1).last() == cs[i as int]);
            assert(views_of(out@) =~= healthy_filter(cs.take(i + 1), healthy@.take(i + 1)));
        }
        i = i + 1;
    }
    proof {
        assert(views_of(candidates@).take(n as int) =~= views_of(candidates@));
        assert(healthy@.take(n as int) =~= healthy@);
    }
    out
}

fn contains_url(v: &Vec<String>, url: &String) -> (r: bool)
    ensures
        r == views_of(v@).contains(url@),
{
    let n = v.len();
    let mut i: usize = 0;
    while i < n
        invariant
            n == v@.len(),
            i <= n,
            forall|j: int| 0 <= j < i ==> views_of(v@)[j] != url@,
        decreases n - i,
    {
        if crate::util::str_eq(v[i].as_str(), url.as_str()) {
            proof {
                assert(views_of(v@)[i as int] == url@);
            }
            return true;
        }
        proof {
            assert(views_of(v@)[i as int] == v@[i as int]@);
        }
        i = i + 1;
    }
    proof {
        if views_of(v@).contains(url@) {
            let k = choose|k: int| 0 <= k < views_of(v@).len() && views_of(v@)[k] == url@;
            assert(views_of(v@)[k] != url@);
        }
    }
    false
}

/// Registration survives appending entries to the registry.
proof fn lemma_registered_preserved(pre: WorkerManager, post: WorkerManager, id: u64)
    requires
        pre.is_registered(id),
        post.entries().len() >= pre.entries().len(),
        forall|i: int|
            0 <= i < pre.entries().len() ==> #[trigger] post.entries()[i] == pre.entries()[i],
    ensures
        post.is_registered(id),
{
    let k = choose|k: int| 0 <= k < pre.ids().len() && pre.ids()[k] == id;
    assert(pre.entries()[k].0 == id);
    assert(post.ids()[k] == id);
}

/// The manager invariant carries over when the claim set is unchanged and
/// the registry stays well formed.
proof fn lemma_wf_same_claims(pre: Manager, post: Manager)
    requires
        pre.claims_distinct(),
        post.claims() == pre.claims(),
        post.pool().wf(),
    ensures
        post.wf(),
{
    assert forall|i: int, j: int|
        0 <= i < j < post.claims().len() implies post.claims()[i] != post.claims()[j] by {
        assert(pre.claims()[i] != pre.claims()[j]);
    }
}

impl Worker {
    /// One-shot cleanup, guarded by the handle's `cleaned` flag: the first
    /// call unregisters this worker, returns its id to the allocator, and
    /// releases its endpoint claim; every later call is a no-op.
    pub fn cleanup(&mut self, m: &mut Manager)
        requires
            old(m).wf(),
            !old(self).is_cleaned() ==> old(m).pool().is_registered(old(self).spec_id()) && old(
                m,
            ).is_claimed(old(self).spec_endpoint()),
        ensures
            final(m).wf(),
            cleanup_transition(*old(self), *final(self), *old(m), *final(m)),
    {
        if self.cleanup_done() {
            return ;
        }
        self.mark_cleaned();
        let id = self.id();
        proof {
            crate::worker_manager::lemma_registered_index(old(m).pool(), id);
        }
        m.worker_manager.cleanup_worker(id);
        m.worker_manager.release_id(id);
        remove_claim(m, self.endpoint());
        proof {
            assert(m.pool().entries().len() == old(m).pool().entries().len() - 1);
        }
    }
}

/// Removes the one occurrence of `url` from the claim set, if present.
fn remove_claim(m: &mut Manager, url: &str)
    requires
        old(m).claims_distinct(),
    ensures
        final(m).spec_is_shutdown() == old(m).spec_is_shutdown(),
        final(m).spec_quiz() == old(m).spec_quiz(),
        final(m).spec_option() == old(m).spec_option(),
        final(m).pool() == old(m).pool(),
        final(m).claims_distinct(),
        !old(m).is_claimed(url@) ==> *final(m) == *old(m),
        old(m).is_claimed(url@) ==> {
            &&& !final(m).is_claimed(url@)
            &&& forall|u: Seq<char>| u != url@ ==> final(m).is_claimed(u) == old(m).is_claimed(u)
            &&& final(m).claims().len() == old(m).claims().len() - 1
        },
{
    let n = m.ip_set.len();
    let mut i: usize = 0;
    while i < n
        invariant
            old(m).claims_distinct(),
            *m == *old(m),
            n == m.ip_set@.len(),
            i <= n,
            forall|j: int| 0 <= j < i ==> old(m).claims()[j] != url@,
        decreases n - i,
    {
        if crate::util::str_eq(m.ip_set[i].as_str(), url) {
            proof {
                assert(old(m).claims()[i as int] == url@);
            }
            m.ip_set.remove(i);
            proof {
                let pre = *old(m);
                let post = *m;
                assert forall|a: int, b: int|
                    0 <= a < b < post.claims().len() implies post.claims()[a]
                    != post.claims()[b] by {
                    let a0: int = if a < i { a } else { a + 1 };
                    let b0: int = if b < i { b } else { b + 1 };
                    assert(post.claims()[a] == pre.claims()[a0]);
                    assert(post.claims()[b] == pre.claims()[b0]);
                    assert(pre.claims()[a0] != pre.claims()[b0]);
                }
                assert(!post.is_claimed(url@)) by {
                    if post.is_claimed(url@) {
                        let k = choose|k: int|
                            0 <= k < post.claims().len() && post.claims()[k] == url@;
                        let k0: int = if k < i { k } else { k + 1 };
                        assert(post.claims()[k] == pre.claims()[k0]);
                        if k0 < i {
                            assert(pre.claims()[k0] != pre.claims()[i as int]);
                        } else {
                            assert(pre.claims()[i as int] != pre.claims()[k0]);
                        }
                    }
                }
                assert forall|u: Seq<char>|
                    u != url@ implies post.is_claimed(u) == pre.is_claimed(u) by {
                    if pre.is_claimed(u) {
                        let k0 = choose|k0: int|
                            0 <= k0 < pre.claims().len() && pre.claims()[k0] == u;
                        if k0 < i {
                            assert(post.claims()[k0] == u);
                        } else {
                            assert(pre.claims()[i as int] == url@);
                            assert(k0 != i);
                            assert(post.claims()[k0 - 1] == pre.claims()[k0]);
                        }
                    }
                    if post.is_claimed(u) {
                        let k = choose|k: int|
                            0 <= k < post.claims().len() && post.claims()[k] == u;
                        let k0: int = if k < i { k } else { k + 1 };
                        assert(pre.claims()[k0] == post.claims()[k]);
                    }
                }
            }
            return ;
        }
        proof {
            assert(old(m).claims()[i as int] == m.ip_set@[i as int]@);
        }
        i = i + 1;
    }
    proof {
        if old(m).is_claimed(url@) {
            let k = choose|k: int| 0 <= k < old(m).claims().len() && old(m).claims()[k] == url@;
            assert(old(m).claims()[k] != url@);
        }
    }
}

/// For any two spawn attempts on the same endpoint in a row, at most one
/// succeeds: once a claim is taken, every later attempt on that endpoint
/// fails with `DuplicateProxy` until the claim is released.  Concurrent
/// attempts are serialized by the claim's critical section, so any pair of
/// them is related exactly as the two transitions below.
pub proof fn lemma_one_claim_wins(
    pre: Manager,
    mid: Manager,
    post: Manager,
    url: Seq<char>,
    r1: Result<SpawnedWorker, SpawnError>,
    r2: Result<SpawnedWorker, SpawnError>,
)
    requires
        !pre.spec_is_shutdown(),
        !pre.is_claimed(url),
        try_spawn_transition(pre, mid, url, r1),
        try_spawn_transition(mid, post, url, r2),
    ensures
        r2 matches Err(e) && e is DuplicateProxy,
        post == mid,
{
    assert(mid.claims() == pre.claims().push(url));
    assert(mid.claims().last() == url);
    assert(mid.is_claimed(url));
}

/// A batch of attempts on an endpoint that is already claimed fails each
/// attempt with `DuplicateProxy` and changes nothing.
proof fn lemma_claimed_batch_all_duplicate(
    pre: Manager,
    post: Manager,
    urls: Seq<Seq<char>>,
    rs: Seq<Result<SpawnedWorker, SpawnError>>,
    u: Seq<char>,
)
    requires
        spawn_all_transition(pre, post, urls, rs),
        forall|i: int| 0 <= i < urls.len() ==> urls[i] == u,
        !pre.spec_is_shutdown(),
        pre.is_claimed(u),
    ensures
        rs.len() == urls.len(),
        forall|j: int|
            0 <= j < rs.len() ==> (#[trigger] rs[j] matches Err(e) && e is DuplicateProxy),
        post == pre,
    decreases urls.len(),
{
    if urls.len() == 0 {
    } else {
        let mid = choose|m1: Manager|
            #[trigger] try_spawn_transition(pre, m1, urls.first(), rs.first())
                && spawn_all_transition(m1, post, urls.drop_first(), rs.drop_first());
        assert(urls.first() == u);
        assert(mid == pre);
        lemma_claimed_batch_all_duplicate(mid, post, urls.drop_first(), rs.drop_first(), u);
        assert forall|j: int|
            0 <= j < rs.len() implies (#[trigger] rs[j] matches Err(e)
            && e is DuplicateProxy) by {
            if j == 0 {
                assert(rs[0] == rs.first());
            } else {
                assert(rs[j] == rs.drop_first()[j - 1]);
            }
        }
    }
}

/// For a batch of attempts on one and the same endpoint, initially
/// unclaimed and with no shutdown under way, only the first attempt can
/// succeed: it takes the claim (or poisons it with a construction
/// failure), and every remaining attempt reports `DuplicateProxy`.
/// Concurrent attempts are serialized by the claim's critical section, so
/// any interleaving is one such batch.
pub proof fn lemma_same_endpoint_batch(
    pre: Manager,
    post: Manager,
    urls: Seq<Seq<char>>,
    rs: Seq<Result<SpawnedWorker, SpawnError>>,
    u: Seq<char>,
)
    requires
        spawn_all_transition(pre, post, urls, rs),
        urls.len() > 0,
        forall|i: int| 0 <= i < urls.len() ==> urls[i] == u,
        !pre.spec_is_shutdown(),
        !pre.is_claimed(u),
    ensures
        rs.len() == urls.len(),
        (rs[0] matches Ok(sw) && sw.worker.spec_endpoint() == u) || (rs[0] matches Err(e)
            && e is Reqwest),
        forall|j: int|
            1 <= j < rs.len() ==> (#[trigger] rs[j] matches Err(e) && e is DuplicateProxy),
{
    let mid = choose|m1: Manager|
        #[trigger] try_spawn_transition(pre, m1, urls.first(), rs.first())
            && spawn_all_transition(m1, post, urls.drop_first(), rs.drop_first());
    assert(urls.first() == u);
    assert(rs[0] == rs.first());
    assert(mid.claims() == pre.claims().push(u));
    assert(mid.claims().last() == u);
    assert(mid.is_claimed(u));
    lemma_claimed_batch_all_duplicate(mid, post, urls.drop_first(), rs.drop_first(), u);
    assert forall|j: int|
        1 <= j < rs.len() implies (#[trigger] rs[j] matches Err(e)
        && e is DuplicateProxy) by {
        assert(rs[j] == rs.drop_first()[j - 1]);
    }
}

/// Once the shutdown flag is set, a spawn attempt fails with `Shutdown`
/// and leaves the claim set (and everything else) unchanged.
pub proof fn lemma_shutdown_blocks_spawn(
    pre: Manager,
    post: Manager,
    url: Seq<char>,
    r: Result<SpawnedWorker, SpawnError>,
)
    requires
        pre.spec_is_shutdown(),
        try_spawn_transition(pre, post, url, r),
    ensures
        r matches Err(e) && e is Shutdown,
        post == pre,
        post.claims() == pre.claims(),
{
}

/// Cleaning a worker twice has the observable effect of exactly one
/// unregister and release: the second call changes nothing.
pub proof fn lemma_cleanup_idempotent(
    w0: Worker,
    w1: Worker,
    w2: Worker,
    m0: Manager,
    m1: Manager,
    m2: Manager,
)
    requires
        !w0.is_cleaned(),
        cleanup_transition(w0, w1, m0, m1),
        cleanup_transition(w1, w2, m1, m2),
    ensures
        m2 == m1,
        w2 == w1,
{
}

} // verus!
