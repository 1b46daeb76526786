//! A concurrent IO operation.
//!
//! An IO task drives an IO object to provide concurrent operation. Callers send it requests
//! through a channel: a read request gets the read bytes back through a channel of its own, a
//! write request hands bytes to write, and a sync request gets the status of the writes.
//!
//! [`IoTask`] holds the task's state and makes its decisions: which request to answer with how
//! many of the bytes read so far, when to read and how much room to make for it, when to stop.
//! Whoever drives the task polls the channel and the IO object, splits the read buffer, sends the
//! answers, and hands each outcome back to the task. `R` is what a read request is answered
//! through, `W` the bytes of a write, `E` an IO error.
use std::collections::VecDeque;
use vstd::prelude::*;

verus! {

/// The capacity of the read buffer of a new task, and the number of bytes it makes room for
/// before reading.
pub const READ_CAPACITY: usize = 0x0400;

/// The capacity under which the task makes room before reading.
pub const LOW_CAPACITY: usize = 0x0100;

/// A request to the task.
pub enum TaskTxMessage<R, W, S> {
    /// Read from io with optional exact size.
    ///
    /// When ready, a [`Data`][TaskReadMessage::Data] message will be send to `tx`.
    Read { cap: Option<usize>, tx: R },
    /// Write given bytes to io.
    Write { bytes: W },
    /// Request `writing` status, a [`TaskSyncMessage`] will be send immediately.
    Sync { tx: S },
}

/// Result for [`Read`][TaskTxMessage::Read] request.
pub enum TaskReadMessage<D, E> {
    /// Successfull read.
    Data(D),
    /// An error occured when reading.
    Failed(E),
}

/// Status for [`Sync`][TaskTxMessage::Sync] request.
pub enum TaskSyncMessage<E> {
    /// There is still write operation pending.
    Pending,
    /// All write operations completed successfully.
    Complete,
    /// An error occured on the most recent write operation.
    Failed(E),
}

/// An IO error, and whether it is a `ConnectionAborted` one.
pub struct WriteError<E> {
    /// The error.
    pub error: E,
    /// `true` when the error is a `ConnectionAborted` one.
    pub aborted: bool,
}

/// A read request waiting for its bytes.
pub struct ReadTask<R> {
    /// The exact number of bytes the request asks for, if any.
    pub cap: Option<usize>,
    /// Where the request is answered.
    pub tx: R,
}

/// What the driver does after a read of the IO object.
pub enum ReadAction<R, E> {
    /// Answer the first request from the buffer if it can, and read again.
    Continue,
    /// The stream ended: the task stops, and these requests get a `ConnectionAborted` error.
    Terminated(Vec<R>),
    /// Answer this request, if any, with the error.
    Failed(Option<R>, E),
}

/// The answer to a sync request: the error of the most recent write if any, else whether writes
/// are pending.
pub open spec fn sync_status<E>(err: Option<WriteError<E>>, writes: nat) -> TaskSyncMessage<E> {
    match err {
        Some(e) => TaskSyncMessage::Failed(e.error),
        None => if writes == 0 {
            TaskSyncMessage::Complete
        } else {
            TaskSyncMessage::Pending
        },
    }
}

/// How many of the `buffered` bytes read so far answer a read request that asks for `cap`: all
/// of them when it asks for no exact size and there are some, or the first `n` when it asks for
/// `n` and there are that many; or none yet.
pub open spec fn ready_len(cap: Option<usize>, buffered: nat) -> Option<nat> {
    match cap {
        None => if buffered > 0 {
            Some(buffered)
        } else {
            None
        },
        Some(n) => if buffered >= n {
            Some(n as nat)
        } else {
            None
        },
    }
}

/// A read request answers as soon as enough bytes are buffered: one that asks for exactly `n`
/// bytes gets the first `n` once at least `n` are buffered, and waits while fewer are; one that
/// asks for no exact size gets every buffered byte once there is one.
pub proof fn lemma_ready_len(n: usize, buffered: nat)
    ensures
        buffered >= n ==> ready_len(Some(n), buffered) == Some(n as nat),
        buffered < n ==> ready_len(Some(n), buffered) is None,
        buffered > 0 ==> ready_len(None, buffered) == Some(buffered),
        ready_len(None, 0) is None,
        ready_len(Some(n), buffered) matches Some(m) ==> m <= buffered,
{
}

/// A sync request is answered with a recorded write error whatever number of writes are still
/// queued; without an error it is complete once no write is queued, and pending while one is.
pub proof fn lemma_sync_status<E>(err: Option<WriteError<E>>, writes: nat)
    ensures
        err matches Some(e) ==> sync_status(err, writes) == TaskSyncMessage::Failed(e.error),
        err is None && writes == 0 ==> sync_status(err, writes) == TaskSyncMessage::<E>::Complete,
        err is None && writes > 0 ==> sync_status(err, writes) == TaskSyncMessage::<E>::Pending,
        sync_status(err, writes) is Pending ==> err is None && writes > 0,
{
}

/// How much room to make before a read, given the capacity of the read buffer and the number
/// of bytes in it.
pub open spec fn reserve_len(capacity: nat, buffered: nat) -> nat {
    if capacity < LOW_CAPACITY && buffered < READ_CAPACITY {
        (READ_CAPACITY - buffered) as nat
    } else {
        0
    }
}

/// The state of an IO task: the read requests waiting for bytes, the bytes waiting to be
/// written, and the error of the most recent write.
///
/// The task is terminating once its error is a `ConnectionAborted` one: then it answers no more
/// requests, and it stops once every pending write is done.
pub struct IoTask<R, W, E> {
    read_queue: VecDeque<ReadTask<R>>,
    write_queue: VecDeque<W>,
    write_err: Option<WriteError<E>>,
}

impl<R, W, E> IoTask<R, W, E> {
    /// The waiting read requests, first request first.
    pub closed spec fn reads_view(&self) -> Seq<ReadTask<R>> {
        self.read_queue@
    }

    /// The exact sizes that the waiting read requests ask for, first request first.
    pub open spec fn caps_view(&self) -> Seq<Option<usize>> {
        self.reads_view().map_values(|t: ReadTask<R>| t.cap)
    }

    /// The bytes waiting to be written, first first.
    pub closed spec fn writes_view(&self) -> Seq<W> {
        self.write_queue@
    }

    /// The error of the most recent write, or of the termination, not yet reported.
    pub closed spec fn write_err_view(&self) -> Option<WriteError<E>> {
        self.write_err
    }

    /// `true` once the task answers no more requests.
    pub open spec fn terminating(&self) -> bool {
        self.write_err_view() matches Some(e) && e.aborted
    }

    /// Creates the state of a task with no request.
    pub fn new() -> (t: Self)
        ensures
            t.reads_view() == Seq::<ReadTask<R>>::empty(),
            t.writes_view() == Seq::<W>::empty(),
            t.write_err_view() is None,
    {
        IoTask { read_queue: VecDeque::new(), write_queue: VecDeque::new(), write_err: None }
    }

    /// Returns `true` once the task answers no more requests.
    pub fn is_terminating(&self) -> (b: bool)
        ensures
            b == self.terminating(),
    {
        match &self.write_err {
            Some(err) => err.aborted,
            None => false,
        }
    }

    /// Returns `true` when the task is terminating and every write is done.
    pub fn can_terminate(&self) -> (b: bool)
        ensures
            b == (self.terminating() && self.writes_view().len() == 0),
    {
        self.is_terminating() && self.write_queue.len() == 0
    }

    /// Stops the task: records `aborted`, a `ConnectionAborted` error, and hands back where each
    /// waiting read request is answered, first request first, for each to get such an error.
    pub fn terminate(&mut self, aborted: E) -> (r: Vec<R>)
        ensures
            final(self).terminating(),
            final(self).write_err_view() == Some(WriteError { error: aborted, aborted: true }),
            final(self).reads_view() == Seq::<ReadTask<R>>::empty(),
            r@ == old(self).reads_view().map_values(|t: ReadTask<R>| t.tx),
            final(self).writes_view() == old(self).writes_view(),
    {
        self.write_err = Some(WriteError { error: aborted, aborted: true });
        let mut txs: Vec<R> = Vec::new();
        while self.read_queue.len() > 0
            invariant
                txs@ + self.reads_view().map_values(|t: ReadTask<R>| t.tx) == old(self).reads_view().map_values(|t: ReadTask<R>| t.tx),
                self.write_err_view() == Some(WriteError { error: aborted, aborted: true }),
                self.writes_view() == old(self).writes_view(),
            decreases self.read_queue@.len(),
        {
            let ghost before = self.reads_view();
            match self.read_queue.pop_front() {
                Some(task) => {
                    proof {
                        assert(before.map_values(|t: ReadTask<R>| t.tx) =~= seq![task.tx]
                            + self.reads_view().map_values(|t: ReadTask<R>| t.tx));
                    }
                    let ghost prev = txs@;
                    txs.push(task.tx);
                    assert(txs@ + self.reads_view().map_values(|t: ReadTask<R>| t.tx) =~= prev
                        + before.map_values(|t: ReadTask<R>| t.tx));
                },
                None => {},
            }
        }
        assert(self.reads_view() =~= Seq::<ReadTask<R>>::empty());
        assert(txs@ =~= txs@ + self.reads_view().map_values(|t: ReadTask<R>| t.tx));
        txs
    }

    /// Takes in a request: queues a read or a write, or answers a sync request with the status
    /// of the writes, which it then clears, and hands back where to send that answer.
    pub fn handle_message<S>(&mut self, msg: TaskTxMessage<R, W, S>) -> (r: Option<
        (S, TaskSyncMessage<E>),
    >)
        ensures
            msg matches TaskTxMessage::Read { cap, tx } ==> r is None && final(self).reads_view()
                == old(self).reads_view().push(ReadTask { cap, tx }) && final(self).writes_view()
                == old(self).writes_view() && final(self).write_err_view() == old(self).write_err_view(),
            msg matches TaskTxMessage::Write { bytes } ==> r is None && final(self).reads_view()
                == old(self).reads_view() && final(self).writes_view() == old(self).writes_view().push(bytes) && final(self).write_err_view() == old(self).write_err_view(),
            msg matches TaskTxMessage::Sync { tx } ==> r == Some(
                (tx, sync_status(old(self).write_err_view(), old(self).writes_view().len())),
            ) && final(self).reads_view() == old(self).reads_view() && final(self).writes_view()
                == old(self).writes_view() && final(self).write_err_view() is None,
            msg matches TaskTxMessage::Sync { tx } ==> match old(self).write_err_view() {
                Some(e) => r == Some((tx, TaskSyncMessage::Failed(e.error))),
                None => r == Some(
                    (
                        tx,
                        if old(self).writes_view().len() == 0 {
                            TaskSyncMessage::<E>::Complete
                        } else {
                            TaskSyncMessage::<E>::Pending
                        },
                    ),
                ),
            },
    {
        match msg {
            TaskTxMessage::Read { cap, tx } => {
                self.read_queue.push_back(ReadTask { cap, tx });
                None
            },
            TaskTxMessage::Write { bytes } => {
                self.write_queue.push_back(bytes);
                None
            },
            TaskTxMessage::Sync { tx } => Some((tx, self.handle_sync())),
        }
    }

    /// The status that a sync request gets: the error of the most recent write if any, which it
    /// clears, else whether writes are pending.
    fn handle_sync(&mut self) -> (status: TaskSyncMessage<E>)
        ensures
            status == sync_status(old(self).write_err_view(), old(self).writes_view().len()),
            old(self).write_err_view() matches Some(e) ==> status == TaskSyncMessage::Failed(e.error),
            old(self).write_err_view() is None ==> status == (if old(self).writes_view().len() == 0 {
                TaskSyncMessage::<E>::Complete
            } else {
                TaskSyncMessage::<E>::Pending
            }),
            final(self).reads_view() == old(self).reads_view(),
            final(self).writes_view() == old(self).writes_view(),
            final(self).write_err_view() is None,
    {
        let err = self.write_err.take();
        match err {
            None => if self.write_queue.len() == 0 {
                TaskSyncMessage::Complete
            } else {
                TaskSyncMessage::Pending
            },
            Some(err) => TaskSyncMessage::Failed(err.error),
        }
    }

    /// Takes the first read request if the `buffered` bytes read so far answer it, and hands it
    /// back with the number of bytes to split off the front of the buffer for it.
    pub fn take_ready(&mut self, buffered: usize) -> (r: Option<(R, usize)>)
        ensures
            old(self).reads_view().len() == 0 ==> r is None,
            old(self).reads_view().len() > 0 ==> match ready_len(
                old(self).reads_view()[0].cap,
                buffered as nat,
            ) {
                None => r is None,
                Some(n) => r == Some((old(self).reads_view()[0].tx, n as usize)),
            },
            old(self).reads_view().len() > 0 ==> (old(self).reads_view()[0].cap matches Some(n)
                ==> (if buffered >= n {
                r == Some((old(self).reads_view()[0].tx, n))
            } else {
                r is None
            })),
            old(self).reads_view().len() > 0 && old(self).reads_view()[0].cap is None ==> (
            if buffered > 0 {
                r == Some((old(self).reads_view()[0].tx, buffered))
            } else {
                r is None
            }),
            r is Some ==> final(self).reads_view() == old(self).reads_view().skip(1),
            r is None ==> final(self).reads_view() == old(self).reads_view(),
            final(self).writes_view() == old(self).writes_view(),
            final(self).write_err_view() == old(self).write_err_view(),
    {
        if self.read_queue.len() == 0 {
            return None;
        }
        let n = match self.read_queue[0].cap {
            None => if buffered > 0 {
                buffered
            } else {
                return None;
            },
            Some(remaining) => if buffered >= remaining {
                remaining
            } else {
                return None;
            },
        };
        match self.read_queue.pop_front() {
            Some(task) => {
                assert(self.reads_view() =~= old(self).reads_view().skip(1));
                Some((task.tx, n))
            },
            None => None,
        }
    }

    /// Decides whether to read: not while terminating nor while no request waits. When it
    /// reads, it hands back how much room to make in the read buffer first, given its capacity
    /// and the number of bytes in it.
    pub fn read_plan(&self, capacity: usize, buffered: usize) -> (r: Option<usize>)
        ensures
            r is Some == (!self.terminating() && self.reads_view().len() > 0),
            r matches Some(n) ==> n == reserve_len(capacity as nat, buffered as nat),
    {
        if self.is_terminating() || self.read_queue.len() == 0 {
            return None;
        }
        if capacity < LOW_CAPACITY && buffered < READ_CAPACITY {
            Some(READ_CAPACITY - buffered)
        } else {
            Some(0)
        }
    }

    /// Takes in the outcome of a read of `n` bytes or of an error: the end of the stream (`0`
    /// bytes) terminates the task with `aborted`, read bytes let the driver answer and read
    /// again, and an error answers the first request.
    pub fn handle_read(&mut self, result: Result<usize, E>, aborted: E) -> (r: ReadAction<R, E>)
        ensures
            result matches Ok(n) && n == 0 ==> (r matches ReadAction::Terminated(txs) && txs@
                == old(self).reads_view().map_values(|t: ReadTask<R>| t.tx)),
            result matches Ok(n) && n == 0 ==> final(self).terminating() && final(
                self).reads_view() == Seq::<ReadTask<R>>::empty(),
            result matches Ok(n) && n > 0 ==> r is Continue && final(self).reads_view() == old(self).reads_view() && final(self).write_err_view() == old(self).write_err_view(),
            result matches Err(e) ==> r == ReadAction::Failed(
                if old(self).reads_view().len() > 0 {
                    Some(old(self).reads_view()[0].tx)
                } else {
                    None
                },
                e,
            ) && final(self).write_err_view() == old(self).write_err_view(),
            result is Err && old(self).reads_view().len() > 0 ==> final(self).reads_view() == old(
                self).reads_view().skip(1),
            result is Err && old(self).reads_view().len() == 0 ==> final(self).reads_view() == old(
                self).reads_view(),
            final(self).writes_view() == old(self).writes_view(),
    {
        match result {
            Ok(0) => ReadAction::Terminated(self.terminate(aborted)),
            Ok(_) => ReadAction::Continue,
            Err(err) => {
                let tx = match self.read_queue.pop_front() {
                    Some(task) => Some(task.tx),
                    None => None,
                };
                assert(old(self).reads_view().len() > 0 ==> self.reads_view() =~= old(
                    self).reads_view().skip(1));
                ReadAction::Failed(tx, err)
            },
        }
    }

    /// Takes the first bytes waiting to be written, for the IO object to write them.
    pub fn take_write(&mut self) -> (r: Option<W>)
        ensures
            old(self).writes_view().len() == 0 ==> r is None && final(self).writes_view() == old(self).writes_view(),
            old(self).writes_view().len() > 0 ==> r == Some(old(self).writes_view()[0]) && final(self).writes_view() == old(self).writes_view().skip(1),
            final(self).reads_view() == old(self).reads_view(),
            final(self).write_err_view() == old(self).write_err_view(),
    {
        let r = self.write_queue.pop_front();
        assert(old(self).writes_view().len() > 0 ==> self.writes_view() =~= old(self).writes_view().skip(1));
        r
    }

    /// Puts back bytes that the IO object could not write yet, first in line.
    pub fn restore_write(&mut self, bytes: W)
        ensures
            final(self).writes_view() == seq![bytes] + old(self).writes_view(),
            final(self).reads_view() == old(self).reads_view(),
            final(self).write_err_view() == old(self).write_err_view(),
    {
        self.write_queue.push_front(bytes);
        assert(self.writes_view() =~= seq![bytes] + old(self).writes_view());
    }

    /// Takes in the outcome of a write: an error is recorded for the next sync request.
    pub fn handle_write(&mut self, result: Result<(), WriteError<E>>)
        ensures
            result matches Err(e) ==> final(self).write_err_view() == Some(e),
            result is Ok ==> final(self).write_err_view() == old(self).write_err_view(),
            final(self).writes_view() == old(self).writes_view(),
            final(self).reads_view() == old(self).reads_view(),
    {
        match result {
            Ok(()) => {},
            Err(err) => self.write_err = Some(err),
        }
    }
}

// ===== Polled handle =====

/// The operation that a polled handle of the task waits on.
#[derive(PartialEq, Eq, Structural, Debug, Clone, Copy)]
pub enum PendingOp {
    /// No request is in flight.
    Idle,
    /// A read request waits for its bytes.
    Read,
    /// A sync request waits for the status of the writes.
    Sync,
}

/// The operation that a polled handle is asked for.
#[derive(PartialEq, Eq, Structural, Debug, Clone, Copy)]
pub enum OpRequest {
    /// Poll for read bytes.
    Read,
    /// Poll for the writes to complete.
    Sync,
}

/// What a polled handle does when it is polled for an operation.
#[derive(PartialEq, Eq, Structural, Debug, Clone, Copy)]
pub enum PollStep {
    /// Send a new request to the task, then wait on its reply.
    Send,
    /// Wait on the reply of the request in flight.
    Await,
    /// Fail: the other operation is in flight.
    Busy,
}

/// Decides what a polled handle does when polled for `request` while it waits on `pending`: with
/// nothing in flight it sends a request, with the same operation in flight it waits on the reply,
/// and with the other operation in flight it fails, since one handle has one reply at a time.
pub fn poll_step(pending: PendingOp, request: OpRequest) -> (s: PollStep)
    ensures
        pending == PendingOp::Idle ==> s == PollStep::Send,
        pending == PendingOp::Read ==> s == (if request == OpRequest::Read {
            PollStep::Await
        } else {
            PollStep::Busy
        }),
        pending == PendingOp::Sync ==> s == (if request == OpRequest::Sync {
            PollStep::Await
        } else {
            PollStep::Busy
        }),
{
    match (pending, request) {
        (PendingOp::Idle, _) => PollStep::Send,
        (PendingOp::Read, OpRequest::Read) => PollStep::Await,
        (PendingOp::Sync, OpRequest::Sync) => PollStep::Await,
        _ => PollStep::Busy,
    }
}

} // verus!
