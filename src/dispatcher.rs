//! The job dispatch engine: the messages workers receive, the decisions a
//! worker and a loop job make, and the dispatcher that submits jobs to the
//! pool's shared queue.
//!
//! The worker threads themselves, and the loop that runs a loop job, are the
//! program's; each step of theirs is decided here.

use vstd::prelude::*;
use std::sync::mpsc::{Receiver, Sender};
use std::sync::{Arc, Mutex};

verus! {

/// The sending end of `std::sync::mpsc::channel`, carried as it is.
#[verifier::external_type_specification]
#[verifier::external_body]
#[verifier::reject_recursive_types(T)]
pub struct ExSender<T>(Sender<T>);

/// The receiving end of `std::sync::mpsc::channel`, carried as it is.
#[verifier::external_type_specification]
#[verifier::external_body]
#[verifier::reject_recursive_types(T)]
pub struct ExReceiver<T>(Receiver<T>);

/// `std::sync::Mutex`, carried as it is.
#[verifier::external_type_specification]
#[verifier::external_body]
#[verifier::reject_recursive_types(T)]
pub struct ExMutex<T: ?Sized>(Mutex<T>);

/// `Sender::clone` makes another sending end of the same channel.
pub assume_specification<T>[ <Sender<T> as Clone>::clone ](_0: &Sender<T>) -> Sender<T>;

/// What a worker receives from the shared queue.
pub enum ControlMessage<J> {
    /// A job to run.
    NewJob(J),
    /// Leave the worker loop.
    Terminate,
}

/// What a worker does with a message it received.
pub enum WorkerAction<J> {
    /// Run the job on this worker, then wait for the next message.
    Run(J),
    /// Leave the worker loop.
    Exit,
}

/// The worker's decision for a received message: a job is run, a
/// termination ends the worker.
pub fn worker_step<J>(msg: ControlMessage<J>) -> (r: WorkerAction<J>)
    ensures
        msg matches ControlMessage::NewJob(j) ==> r matches WorkerAction::Run(k) && k == j,
        msg is Terminate ==> r is Exit,
{
    match msg {
        ControlMessage::NewJob(j) => WorkerAction::Run(j),
        ControlMessage::Terminate => WorkerAction::Exit,
    }
}

/// What a loop job does next.
#[derive(Clone, Copy, Debug, PartialEq, Eq, Structural)]
pub enum LoopAction {
    /// Invoke the step once more.
    RunStep,
    /// Leave the loop; the worker is free again.
    Exit,
}

/// The loop job's decision before an iteration: a pending termination
/// signal ends the loop without invoking the step again.
pub fn before_step(termination_pending: bool) -> (r: LoopAction)
    ensures
        r == (if termination_pending { LoopAction::Exit } else { LoopAction::RunStep }),
{
    if termination_pending {
        LoopAction::Exit
    } else {
        LoopAction::RunStep
    }
}

/// The loop job's decision after an iteration: a step that failed ends the
/// loop, one that succeeded lets it go on.
pub fn after_step<T, E>(result: &Result<T, E>) -> (r: LoopAction)
    ensures
        r == (if result is Err { LoopAction::Exit } else { LoopAction::RunStep }),
{
    match result {
        Ok(_) => LoopAction::RunStep,
        Err(_) => LoopAction::Exit,
    }
}

/// A pool size of zero is refused.
#[derive(Clone, Copy, Debug, PartialEq, Eq, Structural)]
pub struct EmptyPoolError;

/// Checks a pool size: a pool needs at least one worker.
pub fn check_pool_size(size: usize) -> (r: Result<usize, EmptyPoolError>)
    ensures
        size > 0 ==> r == Ok::<usize, EmptyPoolError>(size),
        size == 0 ==> r is Err,
{
    if size == 0 {
        Err(EmptyPoolError)
    } else {
        Ok(size)
    }
}

/// Relies on `std::sync::mpsc::Sender::send`: a send fails only when the
/// receiving end is gone, and then gives back the message it was handed.
#[verifier::external_body]
fn channel_send<T>(sender: &Sender<T>, msg: T) -> (r: Result<(), T>)
    ensures
        r matches Err(m) ==> m == msg,
{
    sender.send(msg).map_err(|e| e.0)
}

/// A sending end of a channel, with the record of every message handed to
/// it and of whether each send went through.
#[verifier::reject_recursive_types(T)]
pub struct LoggedSender<T> {
    sender: Sender<T>,
    handed: Ghost<Seq<T>>,
    accepted: Ghost<Seq<bool>>,
}

impl<T> LoggedSender<T> {
    /// The messages handed to this sending end, in order.
    pub closed spec fn handed(&self) -> Seq<T> {
        self.handed@
    }

    /// For each message handed, whether the channel took it.
    pub closed spec fn accepted(&self) -> Seq<bool> {
        self.accepted@
    }

    /// A sending end to which nothing has been handed yet.
    pub fn new(sender: Sender<T>) -> (r: LoggedSender<T>)
        ensures
            r.handed() == Seq::<T>::empty(),
            r.accepted() == Seq::<bool>::empty(),
    {
        LoggedSender { sender, handed: Ghost(Seq::empty()), accepted: Ghost(Seq::empty()) }
    }

    /// Hands `msg` to the channel. When the receiving end is gone the message
    /// comes back.
    pub fn send(&mut self, msg: T) -> (r: Result<(), T>)
        ensures
            final(self).handed() == old(self).handed().push(msg),
            final(self).accepted() == old(self).accepted().push(r is Ok),
            r matches Err(m) ==> m == msg,
    {
        let ghost m = msg;
        let r = channel_send(&self.sender, msg);
        self.handed = Ghost(self.handed@.push(m));
        self.accepted = Ghost(self.accepted@.push(r is Ok));
        r
    }
}

impl<T> Clone for LoggedSender<T> {
    /// Another sending end of the same channel, with a record of its own.
    fn clone(&self) -> Self {
        LoggedSender::new(self.sender.clone())
    }
}

/// Whether both sends of a round went through.
pub fn both_sent<M>(a: &Result<(), M>, b: &Result<(), M>) -> (r: bool)
    ensures
        r == (a is Ok && b is Ok),
{
    a.is_ok() && b.is_ok()
}

/// The number of rounds `i` in which both `a[i]` and `b[i]` hold.
pub open spec fn count_both(a: Seq<bool>, b: Seq<bool>) -> nat
    decreases a.len(),
{
    if a.len() == 0 || b.len() == 0 {
        0
    } else {
        count_both(a.drop_last(), b.drop_last()) + if a.last() && b.last() {
            1nat
        } else {
            0nat
        }
    }
}

/// `n` terminations.
pub open spec fn terminations<J>(n: nat) -> Seq<ControlMessage<J>> {
    Seq::new(n, |i: int| ControlMessage::<J>::Terminate)
}

/// The pool's submission handle: jobs go to the workers' shared queue, and
/// termination signals to the loop jobs.
#[verifier::reject_recursive_types(J)]
pub struct Dispatcher<J> {
    /// The workers' shared queue.
    pub sender: LoggedSender<ControlMessage<J>>,
    /// The loop jobs' signal channel.
    pub send_term: LoggedSender<ControlMessage<J>>,
    pub recv_term: Arc<Mutex<Receiver<ControlMessage<J>>>>,
}

impl<J> Clone for Dispatcher<J> {
    fn clone(&self) -> Self {
        Dispatcher {
            sender: self.sender.clone(),
            send_term: self.send_term.clone(),
            recv_term: self.recv_term.clone(),
        }
    }
}

impl<J> Dispatcher<J> {
    pub fn new(
        sender: Sender<ControlMessage<J>>,
        send_term: Sender<ControlMessage<J>>,
        recv_term: Arc<Mutex<Receiver<ControlMessage<J>>>>,
    ) -> (r: Dispatcher<J>)
        ensures
            r.sender.handed() == Seq::<ControlMessage<J>>::empty(),
            r.send_term.handed() == Seq::<ControlMessage<J>>::empty(),
            r.sender.accepted() == Seq::<bool>::empty(),
            r.send_term.accepted() == Seq::<bool>::empty(),
    {
        Dispatcher {
            sender: LoggedSender::new(sender),
            send_term: LoggedSender::new(send_term),
            recv_term,
        }
    }

    /// Enqueues a one-shot job on the shared queue, behind everything handed
    /// to it before. When the workers are gone the job comes back unrun.
    pub fn execute(&mut self, job: J) -> (r: Result<(), J>)
        ensures
            final(self).sender.handed() == old(self).sender.handed().push(ControlMessage::NewJob(job)),
            final(self).sender.accepted() == old(self).sender.accepted().push(r is Ok),
            final(self).send_term == old(self).send_term,
            r matches Err(j) ==> j == job,
    {
        match self.sender.send(ControlMessage::NewJob(job)) {
            Ok(()) => Ok(()),
            Err(ControlMessage::NewJob(j)) => Err(j),
            Err(ControlMessage::Terminate) => {
                assert(false);
                Ok(())
            },
        }
    }

    /// Enqueues a message for the workers as it is. When the workers are gone
    /// the message comes back.
    pub fn send(&mut self, msg: ControlMessage<J>) -> (r: Result<(), ControlMessage<J>>)
        ensures
            final(self).sender.handed() == old(self).sender.handed().push(msg),
            final(self).sender.accepted() == old(self).sender.accepted().push(r is Ok),
            final(self).send_term == old(self).send_term,
            r matches Err(m) ==> m == msg,
    {
        self.sender.send(msg)
    }

    /// Shuts down `workers` workers: one termination for each worker on the
    /// shared queue, and one for each on the loop jobs' signal channel. A
    /// worker takes a termination only between jobs, so jobs already taken
    /// finish. Returns the number of rounds in which both terminations went
    /// through.
    pub fn terminate_workers(&mut self, workers: usize) -> (r: usize)
        ensures
            final(self).sender.handed() == old(self).sender.handed() + terminations::<J>(workers as nat),
            final(self).send_term.handed() == old(self).send_term.handed() + terminations::<J>(workers as nat),
            final(self).sender.accepted().len() == old(self).sender.accepted().len() + workers,
            final(self).send_term.accepted().len() == old(self).send_term.accepted().len() + workers,
            final(self).sender.accepted().subrange(0, old(self).sender.accepted().len() as int)
                == old(self).sender.accepted(),
            final(self).send_term.accepted().subrange(0, old(self).send_term.accepted().len() as int)
                == old(self).send_term.accepted(),
            r == count_both(
                final(self).sender.accepted().skip(old(self).sender.accepted().len() as int),
                final(self).send_term.accepted().skip(old(self).send_term.accepted().len() as int),
            ),
            r <= workers,
    {
        let ghost q0 = self.sender.handed();
        let ghost s0 = self.send_term.handed();
        let ghost qa = self.sender.accepted();
        let ghost sa = self.send_term.accepted();
        let mut sent: usize = 0;
        let mut i: usize = 0;
        while i < workers
            invariant
                i <= workers,
                sent <= i,
                self.sender.handed() == q0 + terminations::<J>(i as nat),
                self.send_term.handed() == s0 + terminations::<J>(i as nat),
                self.sender.accepted().len() == qa.len() + i,
                self.send_term.accepted().len() == sa.len() + i,
                self.sender.accepted().subrange(0, qa.len() as int) == qa,
                self.send_term.accepted().subrange(0, sa.len() as int) == sa,
                sent == count_both(
                    self.sender.accepted().skip(qa.len() as int),
                    self.send_term.accepted().skip(sa.len() as int),
                ),
            decreases workers - i,
        {
            let ghost qb = self.sender.accepted();
            let ghost sb = self.send_term.accepted();
            let to_worker = self.sender.send(ControlMessage::Terminate);
            let to_loops = self.send_term.send(ControlMessage::Terminate);
            if both_sent(&to_worker, &to_loops) {
                sent = sent + 1;
            }
            proof {
                assert(terminations::<J>((i + 1) as nat) =~= terminations::<J>(i as nat).push(ControlMessage::Terminate));
                assert(self.sender.handed() =~= q0 + terminations::<J>((i + 1) as nat));
                assert(self.send_term.handed() =~= s0 + terminations::<J>((i + 1) as nat));
                let a = self.sender.accepted().skip(qa.len() as int);
                let b = self.send_term.accepted().skip(sa.len() as int);
                assert(a.drop_last() =~= qb.skip(qa.len() as int));
                assert(b.drop_last() =~= sb.skip(sa.len() as int));
                assert(self.sender.accepted().subrange(0, qa.len() as int) =~= qa);
                assert(self.send_term.accepted().subrange(0, sa.len() as int) =~= sa);
            }
            i = i + 1;
        }
        sent
    }
}

} // verus!
