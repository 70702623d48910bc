use vstd::prelude::*;

use crate::error::{PoolCreationError, SubmitError};
use crate::worker::Worker;

verus! {

/// A fixed set of workers together with the producer side of the queue that
/// feeds them.
///
/// `S` is the producer handle and `H` a worker's thread handle. The producer
/// is present from `build` until `shutdown`, and never comes back.
pub struct Threadpool<S, H> {
    workers: Vec<Worker<H>>,
    sender: Option<S>,
}

/// The identifiers of the workers that still hold a thread handle, in order:
/// exactly the workers that a shutdown has to join.
pub open spec fn live_ids<H>(workers: Seq<Worker<H>>) -> Seq<usize>
    decreases workers.len(),
{
    if workers.len() == 0 {
        Seq::empty()
    } else {
        let rest = live_ids(workers.drop_last());
        if workers.last().thread is Some {
            rest.push(workers.last().id)
        } else {
            rest
        }
    }
}

/// Every worker holds a thread handle: the state that `build` leaves.
pub open spec fn all_running<H>(workers: Seq<Worker<H>>) -> bool {
    forall|i: int| 0 <= i < workers.len() ==> (#[trigger] workers[i]).thread is Some
}

/// No worker holds a thread handle: the state that `shutdown` leaves.
pub open spec fn all_joined<H>(workers: Seq<Worker<H>>) -> bool {
    forall|i: int| 0 <= i < workers.len() ==> (#[trigger] workers[i]).thread is None
}

/// Worker `i` of a pool is identified by `i`.
pub open spec fn ids_are_indices<H>(workers: Seq<Worker<H>>) -> bool {
    forall|i: int| 0 <= i < workers.len() ==> (#[trigger] workers[i]).id == i
}

/// Where every worker is running, the live identifiers are all of them, in order.
pub proof fn lemma_live_ids_all_running<H>(workers: Seq<Worker<H>>)
    requires
        all_running(workers),
    ensures
        live_ids(workers) == workers.map_values(|w: Worker<H>| w.id),
    decreases workers.len(),
{
    if workers.len() > 0 {
        let rest = workers.drop_last();
        assert(all_running(rest)) by {
            assert forall|i: int| 0 <= i < rest.len() implies (#[trigger] rest[i]).thread is Some by {
                assert(rest[i] == workers[i]);
            }
        }
        lemma_live_ids_all_running(rest);
        assert(workers.last().thread is Some);
        assert(live_ids(workers) =~= workers.map_values(|w: Worker<H>| w.id));
    }
}

/// Where every worker has been joined, no identifier is live.
pub proof fn lemma_live_ids_all_joined<H>(workers: Seq<Worker<H>>)
    requires
        all_joined(workers),
    ensures
        live_ids(workers) == Seq::<usize>::empty(),
    decreases workers.len(),
{
    if workers.len() > 0 {
        let rest = workers.drop_last();
        assert(all_joined(rest)) by {
            assert forall|i: int| 0 <= i < rest.len() implies (#[trigger] rest[i]).thread is None by {
                assert(rest[i] == workers[i]);
            }
        }
        lemma_live_ids_all_joined(rest);
        assert(workers.last().thread is None);
    }
}

/// The first shutdown of a pool that `build` returned joins every worker, each
/// once, in identifier order `0, 1, ..., size - 1`.
pub proof fn lemma_first_shutdown_joins_every_worker<S, H>(p: Threadpool<S, H>)
    requires
        p.wf(),
        all_running(p.workers()),
    ensures
        live_ids(p.workers()) == Seq::new(p.workers().len(), |i: int| i as usize),
{
    lemma_live_ids_all_running(p.workers());
    assert(p.workers().map_values(|w: Worker<H>| w.id) =~= Seq::new(
        p.workers().len(),
        |i: int| i as usize,
    ));
}

/// A thread handle is joined at most once: after a shutdown, a second one
/// joins no worker.
pub proof fn lemma_second_shutdown_joins_nothing<S, H>(p: Threadpool<S, H>)
    requires
        p.wf(),
        all_joined(p.workers()),
    ensures
        live_ids(p.workers()) == Seq::<usize>::empty(),
{
    lemma_live_ids_all_joined(p.workers());
}

impl<S, H> Threadpool<S, H> {
    /// Well-formedness: at least one worker, and worker `i` identified by `i`.
    pub open spec fn wf(&self) -> bool {
        &&& self.workers().len() >= 1
        &&& ids_are_indices(self.workers())
    }

    /// The workers, in identifier order.
    pub closed spec fn workers(&self) -> Seq<Worker<H>> {
        self.workers@
    }

    /// The producer handle, while the queue is open.
    pub closed spec fn sender(&self) -> Option<S> {
        self.sender
    }

    /// The number of workers, fixed when the pool is built.
    pub fn size(&self) -> (n: usize)
        ensures
            n == self.workers().len(),
    {
        self.workers.len()
    }

    /// Whether jobs can still be submitted, that is, whether the pool has not
    /// been shut down.
    pub fn is_open(&self) -> (b: bool)
        ensures
            b == self.sender() is Some,
    {
        self.sender.is_some()
    }

    /// Creates a pool of `size` workers.
    ///
    /// A size of zero is refused before anything is created. Otherwise
    /// `make_queue` is called once for the producer and consumer sides of the
    /// queue, and `spawn(id, &consumer)` once for each `id` in `0..size`, in
    /// that order.
    pub fn build<R, Q, F>(size: usize, make_queue: Q, spawn: F) -> (r: Result<Self, PoolCreationError>)
        where
            Q: FnOnce() -> (S, R),
            F: Fn(usize, &R) -> H,
        requires
            make_queue.requires(()),
            forall|id: usize, rx: &R| spawn.requires((id, rx)),
        ensures
            r is Err <==> size == 0,
            r is Ok ==> {
                let p = r->Ok_0;
                &&& p.wf()
                &&& p.workers().len() == size
                &&& all_running(p.workers())
                &&& exists|q: (S, R)|
                    make_queue.ensures((), q)
                    && p.sender() == Some(q.0)
                    && forall|i: int| 0 <= i < size ==> (#[trigger] p.workers()[i]).thread is Some
                        && spawn.ensures((i as usize, &q.1), p.workers()[i].thread->Some_0)
            },
    {
        if size == 0 {
            return Err(PoolCreationError);
        }
        let queue = make_queue();
        let ghost q = queue;
        let (sender, receiver) = queue;
        let mut workers: Vec<Worker<H>> = Vec::with_capacity(size);
        for id in 0..size
            invariant
                forall|id: usize, rx: &R| spawn.requires((id, rx)),
                q.1 == receiver,
                workers@.len() == id,
                ids_are_indices(workers@),
                forall|i: int| 0 <= i < id ==> (#[trigger] workers@[i]).thread is Some
                    && spawn.ensures((i as usize, &receiver), workers@[i].thread->Some_0),
        {
            let thread = spawn(id, &receiver);
            workers.push(Worker::new(id, thread));
        }
        Ok(Threadpool { workers, sender: Some(sender) })
    }

    /// Submits `job` by handing it, with the producer handle, to `send`,
    /// which reports whether the queue accepted it.
    ///
    /// Once the pool is shut down nothing is sent and `Closed` comes back.
    /// `Disconnected` means that the queue refused the job because no worker
    /// is left to receive it.
    pub fn execute<J, F>(&self, job: J, send: F) -> (r: Result<(), SubmitError>)
        where
            F: FnOnce(&S, J) -> bool,
        requires
            self.sender() is Some ==> send.requires((&self.sender()->Some_0, job)),
        ensures
            self.sender() is None ==> r == Err::<(), SubmitError>(SubmitError::Closed),
            self.sender() is Some && r is Ok ==> send.ensures((&self.sender()->Some_0, job), true),
            self.sender() is Some && r is Err ==> r == Err::<(), SubmitError>(SubmitError::Disconnected)
                && send.ensures((&self.sender()->Some_0, job), false),
    {
        match &self.sender {
            Some(sender) => {
                if send(sender, job) {
                    Ok(())
                } else {
                    Err(SubmitError::Disconnected)
                }
            },
            None => Err(SubmitError::Closed),
        }
    }

    /// Shuts the pool down: first the producer handle is dropped, which
    /// closes the queue, so that each worker leaves its loop once the queue is
    /// drained; then every worker that still holds a thread handle has it
    /// taken and passed to `join(id, handle)`, in identifier order.
    ///
    /// Returns the identifiers that were joined. Calling it again joins
    /// nothing.
    pub fn shutdown<F>(&mut self, join: F) -> (joined: Vec<usize>)
        where
            F: Fn(usize, H),
        requires
            old(self).wf(),
            forall|id: usize, h: H| join.requires((id, h)),
        ensures
            final(self).wf(),
            final(self).sender() is None,
            final(self).workers().len() == old(self).workers().len(),
            forall|i: int|
                0 <= i < final(self).workers().len() ==> (#[trigger] final(self).workers()[i]).id
                    == old(self).workers()[i].id,
            all_joined(final(self).workers()),
            joined@ == live_ids(old(self).workers()),
            forall|k: int|
                0 <= k < joined@.len() ==> 0 <= joined@[k] < old(self).workers().len() && join.ensures(
                    (#[trigger] joined@[k], old(self).workers()[joined@[k] as int].thread->Some_0),
                    (),
                ),
    {
        self.sender = None;
        let ghost before = self.workers@;
        let mut joined: Vec<usize> = Vec::new();
        let n = self.workers.len();
        for i in 0..n
            invariant
                forall|id: usize, h: H| join.requires((id, h)),
                n == before.len(),
                self.workers@.len() == n,
                ids_are_indices(before),
                self.sender is None,
                forall|k: int| 0 <= k < i ==> (#[trigger] self.workers@[k]).id == before[k].id
                    && self.workers@[k].thread is None,
                forall|k: int| i <= k < n ==> #[trigger] self.workers@[k] == before[k],
                joined@ == live_ids(before.take(i as int)),
                forall|k: int|
                    0 <= k < joined@.len() ==> 0 <= joined@[k] < n && join.ensures(
                        (#[trigger] joined@[k], before[joined@[k] as int].thread->Some_0),
                        (),
                    ),
        {
            assert(before.take(i as int + 1).drop_last() == before.take(i as int));
            let thread = self.workers[i].take_thread();
            if let Some(handle) = thread {
                join(i, handle);
                joined.push(i);
            }
        }
        assert(before.take(n as int) == before);
        joined
    }
}

} // verus!
