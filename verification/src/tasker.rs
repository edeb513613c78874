//! The task scheduler attached to each lifecycle.
//!
//! A `Tasker` owns an unbounded multi-producer multi-consumer queue of
//! [`Task`]s and the bookkeeping of a configurable number of worker loops.
//! Scheduling appends to the queue; a worker's turn takes the oldest task
//! unless disposal has been signalled, in which case the loop ends at once
//! without draining what is left.  A task is tagged blocking when it must be
//! handed to the execution context reserved for long-running work.

use vstd::prelude::*;

verus! {

/// A unit of work handed to a scheduler: a name for diagnostics and a flag
/// deciding which execution context runs it.
pub struct Task {
    name: String,
    blocking: bool,
}

impl Task {
    /// The task's diagnostic name.
    pub closed spec fn spec_name(self) -> Seq<char> {
        self.name@
    }

    /// Whether the task must run on the context reserved for blocking work.
    pub closed spec fn spec_blocking(self) -> bool {
        self.blocking
    }

    /// A non-blocking task, awaited in place on its worker.
    pub fn new(name: String) -> (t: Task)
        ensures
            t.spec_name() == name@,
            !t.spec_blocking(),
    {
        Task { name, blocking: false }
    }

    /// A blocking task, offloaded to the reserved execution context.
    pub fn new_blocking(name: String) -> (t: Task)
        ensures
            t.spec_name() == name@,
            t.spec_blocking(),
    {
        Task { name, blocking: true }
    }

    /// The task's diagnostic name.
    pub fn name(&self) -> (r: &str)
        ensures
            r@ == self.spec_name(),
    {
        self.name.as_str()
    }

    /// Whether the task is tagged blocking.
    pub fn is_blocking(&self) -> (r: bool)
        ensures
            r == self.spec_blocking(),
    {
        self.blocking
    }
}

/// The queue behind a scheduler: one sending and one receiving handle of the
/// same flume channel.  Keeping the pair inside a single value is what makes
/// the contracts below sound: both handles always denote the one queue whose
/// contents [`task_queue_items`] names.
#[verifier::external_body]
pub struct TaskQueue {
    sender: flume::Sender<Task>,
    receiver: flume::Receiver<Task>,
}

/// The tasks queued in `q`, oldest first.
pub uninterp spec fn task_queue_items(q: TaskQueue) -> Seq<Task>;

impl TaskQueue {
    /// Relies on flume::unbounded: a freshly created channel holds nothing.
    #[verifier::external_body]
    pub fn new() -> (q: TaskQueue)
        ensures
            task_queue_items(q) == Seq::<Task>::empty(),
    {
        let (sender, receiver) = flume::unbounded();
        TaskQueue { sender, receiver }
    }

    /// Relies on flume::Sender::send: on an unbounded channel the message is
    /// appended behind the queued ones without blocking, and sending fails
    /// only once every receiver is gone — this value always holds its
    /// receiver, so the send cannot fail.
    #[verifier::external_body]
    pub fn push(&mut self, t: Task)
        ensures
            task_queue_items(*final(self)) == task_queue_items(*old(self)).push(t),
    {
        let _ = self.sender.send(t);
    }

    /// Relies on flume::Receiver::try_recv: messages arrive in the order
    /// they were sent, and an empty channel reports itself empty instead of
    /// waiting.
    #[verifier::external_body]
    pub fn pop(&mut self) -> (r: Option<Task>)
        ensures
            task_queue_items(*old(self)).len() == 0 ==> r is None && *final(self) == *old(self),
            task_queue_items(*old(self)).len() > 0 ==> r == Some(
                task_queue_items(*old(self)).first(),
            ) && task_queue_items(*final(self)) == task_queue_items(*old(self)).drop_first(),
    {
        match self.receiver.try_recv() {
            Ok(t) => Some(t),
            Err(_) => None,
        }
    }

    /// Relies on flume::Receiver::len: the number of queued messages.
    #[verifier::external_body]
    pub fn len(&self) -> (n: usize)
        ensures
            n == task_queue_items(*self).len(),
    {
        self.receiver.len()
    }
}

/// One worker loop's bookkeeping: how many tasks it has taken off the queue.
pub struct Worker {
    process_count: usize,
}

impl Worker {
    /// How many tasks this worker has processed.
    pub closed spec fn spec_processed(self) -> usize {
        self.process_count
    }

    /// A worker that has processed nothing yet.
    pub fn new() -> (w: Worker)
        ensures
            w.spec_processed() == 0,
    {
        Worker { process_count: 0 }
    }

    /// How many tasks this worker has processed.
    pub fn processed(&self) -> (n: usize)
        ensures
            n == self.spec_processed(),
    {
        self.process_count
    }
}

/// A scheduler: an unbounded task queue plus its workers and the disposal
/// flag that stops them.
pub struct Tasker {
    queue: TaskQueue,
    workers: Vec<Worker>,
    disposed: bool,
}

impl Tasker {
    /// The queued tasks, oldest first.
    pub closed spec fn spec_items(self) -> Seq<Task> {
        task_queue_items(self.queue)
    }

    /// Whether disposal has been signalled to the workers.
    pub closed spec fn spec_disposed(self) -> bool {
        self.disposed
    }

    /// The workers' bookkeeping.
    pub closed spec fn spec_workers(self) -> Seq<Worker> {
        self.workers@
    }

    /// A scheduler with an empty queue and `workers` idle workers.
    pub fn new(workers: u8) -> (t: Tasker)
        ensures
            t.spec_items() == Seq::<Task>::empty(),
            !t.spec_disposed(),
            t.spec_workers().len() == workers as int,
            forall|i: int|
                0 <= i < workers as int ==> t.spec_workers()[i].spec_processed() == 0,
    {
        let mut ws: Vec<Worker> = Vec::new();
        let mut i: u8 = 0;
        while i < workers
            invariant
                i <= workers,
                ws@.len() == i as int,
                forall|j: int| 0 <= j < i as int ==> ws@[j].spec_processed() == 0,
            decreases workers - i,
        {
            ws.push(Worker::new());
            i = i + 1;
        }
        Tasker { queue: TaskQueue::new(), workers: ws, disposed: false }
    }

    /// How many tasks are queued.
    pub fn queue_len(&self) -> (n: usize)
        ensures
            n == self.spec_items().len(),
    {
        self.queue.len()
    }

    /// How many tasks the worker in slot `w` has processed.
    pub fn worker_processed(&self, w: usize) -> (n: usize)
        requires
            w < self.spec_workers().len(),
        ensures
            n == self.spec_workers()[w as int].spec_processed(),
    {
        self.workers[w].processed()
    }

    /// Enqueues one task behind the already queued ones.
    pub fn sched(&mut self, task: Task)
        ensures
            final(self).spec_items() == old(self).spec_items().push(task),
            final(self).spec_disposed() == old(self).spec_disposed(),
            final(self).spec_workers() == old(self).spec_workers(),
    {
        self.queue.push(task);
    }

    /// Enqueues the given tasks in order.
    pub fn sched_many(&mut self, tasks: Vec<Task>)
        ensures
            final(self).spec_items() == old(self).spec_items() + tasks@,
            final(self).spec_disposed() == old(self).spec_disposed(),
            final(self).spec_workers() == old(self).spec_workers(),
    {
        let ghost pre = *self;
        let ghost all = tasks@;
        let mut rest = tasks;
        while rest.len() > 0
            invariant
                self.spec_items() + rest@ == pre.spec_items() + all,
                self.spec_disposed() == pre.spec_disposed(),
                self.spec_workers() == pre.spec_workers(),
            decreases rest@.len(),
        {
            let t = rest.remove(0);
            self.queue.push(t);
        }
        proof {
            assert(self.spec_items() =~= pre.spec_items() + all);
        }
    }

    /// Broadcasts the disposal signal: workers stop taking tasks, and what
    /// is still queued stays queued.
    pub fn dispose(&mut self)
        ensures
            final(self).spec_disposed(),
            final(self).spec_items() == old(self).spec_items(),
            final(self).spec_workers() == old(self).spec_workers(),
    {
        self.disposed = true;
    }

    /// One turn of a worker's loop.  Disposal wins over pending work and
    /// ends the turn at once, without draining the queue; otherwise the
    /// worker takes the oldest task — handed back to the caller, who runs a
    /// blocking task on the reserved context — and counts it processed.
    pub fn worker_step(&mut self, w: usize) -> (r: Option<Task>)
        requires
            w < old(self).spec_workers().len(),
            old(self).spec_workers()[w as int].spec_processed() < usize::MAX,
        ensures
            final(self).spec_disposed() == old(self).spec_disposed(),
            old(self).spec_disposed() ==> r is None && *final(self) == *old(self),
            !old(self).spec_disposed() && old(self).spec_items().len() == 0 ==> r is None
                && *final(self) == *old(self),
            !old(self).spec_disposed() && old(self).spec_items().len() > 0 ==> {
                &&& r == Some(old(self).spec_items().first())
                &&& final(self).spec_items() == old(self).spec_items().drop_first()
                &&& final(self).spec_workers().len() == old(self).spec_workers().len()
                &&& final(self).spec_workers()[w as int].spec_processed() == old(self).spec_workers()[w as int].spec_processed() + 1
                &&& forall|j: int|
                    0 <= j < old(self).spec_workers().len() && j != w as int ==> final(self).spec_workers()[j] == old(self).spec_workers()[j]
            },
    {
        if self.disposed {
            return None;
        }
        match self.queue.pop() {
            None => None,
            Some(t) => {
                let wk = &mut self.workers[w];
                wk.process_count = wk.process_count + 1;
                Some(t)
            },
        }
    }

    /// Runs one worker until its queue is exhausted or disposal is observed
    /// at the start of a turn.  Without a disposal signal every queued task
    /// is processed exactly once: the worker's counter grows by exactly the
    /// number of tasks that were queued.
    pub fn run_worker(&mut self, w: usize)
        requires
            w < old(self).spec_workers().len(),
            old(self).spec_workers()[w as int].spec_processed() + old(self).spec_items().len()
                < usize::MAX,
        ensures
            final(self).spec_disposed() == old(self).spec_disposed(),
            old(self).spec_disposed() ==> *final(self) == *old(self),
            !old(self).spec_disposed() ==> {
                &&& final(self).spec_items().len() == 0
                &&& final(self).spec_workers().len() == old(self).spec_workers().len()
                &&& final(self).spec_workers()[w as int].spec_processed() == old(self).spec_workers()[w as int].spec_processed() + old(self).spec_items().len()
                &&& forall|j: int|
                    0 <= j < old(self).spec_workers().len() && j != w as int ==> final(self).spec_workers()[j] == old(self).spec_workers()[j]
            },
    {
        if self.disposed {
            return ;
        }
        let ghost pre = *self;
        loop
            invariant
                !self.spec_disposed(),
                w < self.spec_workers().len(),
                pre.spec_workers()[w as int].spec_processed() + pre.spec_items().len()
                    < usize::MAX,
                self.spec_workers().len() == pre.spec_workers().len(),
                self.spec_workers()[w as int].spec_processed() + self.spec_items().len()
                    == pre.spec_workers()[w as int].spec_processed() + pre.spec_items().len(),
                forall|j: int|
                    0 <= j < pre.spec_workers().len() && j != w as int ==> self.spec_workers()[j]
                        == pre.spec_workers()[j],
            ensures
                !self.spec_disposed(),
                self.spec_items().len() == 0,
                self.spec_workers().len() == pre.spec_workers().len(),
                self.spec_workers()[w as int].spec_processed() == pre.spec_workers()[
                    w as int].spec_processed() + pre.spec_items().len(),
                forall|j: int|
                    0 <= j < pre.spec_workers().len() && j != w as int ==> self.spec_workers()[j]
                        == pre.spec_workers()[j],
            decreases self.spec_items().len(),
        {
            let took = self.worker_step(w);
            if took.is_none() {
                break ;
            }
        }
    }
}

} // verus!
