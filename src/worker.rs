use vstd::prelude::*;

verus! {

/// One worker of a pool: its identifier and, until it is joined, the handle
/// of the thread that runs it.
pub struct Worker<H> {
    pub id: usize,
    pub thread: Option<H>,
}

impl<H> Worker<H> {
    /// A worker whose thread is running and not yet joined.
    pub fn new(id: usize, thread: H) -> (w: Worker<H>)
        ensures
            w.id == id,
            w.thread == Some(thread),
    {
        Worker { id, thread: Some(thread) }
    }

    /// Hands out the thread handle for joining; afterwards the worker holds
    /// none, so the handle can never be joined a second time.
    pub fn take_thread(&mut self) -> (t: Option<H>)
        ensures
            t == old(self).thread,
            final(self).thread is None,
            final(self).id == old(self).id,
    {
        self.thread.take()
    }
}

/// What a worker does with the outcome of one attempt to dequeue.
pub enum Step<J> {
    /// Run the job that was dequeued, then try again.
    Run(J),
    /// The queue is closed and drained: leave the loop.
    Stop,
}

/// The worker loop's decision: a dequeued job is run, while a failed dequeue
/// (the producer is gone and nothing is left) ends the loop.
pub fn next_step<J, E>(message: Result<J, E>) -> (s: Step<J>)
    ensures
        message is Ok ==> s == Step::Run(message->Ok_0),
        message is Err ==> s is Stop,
{
    match message {
        Ok(job) => Step::Run(job),
        Err(_) => Step::Stop,
    }
}

} // verus!
