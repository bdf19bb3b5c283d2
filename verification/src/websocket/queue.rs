//! The bounded queues that carry messages to a client: the control plane, which never drops a
//! message, and the data plane, which drops the oldest messages when the client falls behind.

use vstd::prelude::*;

use flume::{Receiver, Sender, TrySendError};

verus! {

#[verifier::external_type_specification]
#[verifier::external_body]
#[verifier::reject_recursive_types(T)]
pub struct ExSender<T>(Sender<T>);

#[verifier::external_type_specification]
#[verifier::external_body]
#[verifier::reject_recursive_types(T)]
pub struct ExReceiver<T>(Receiver<T>);

/// A bounded queue, with both of its ends.
#[verifier::reject_recursive_types(T)]
pub struct Queue<T> {
    tx: Sender<T>,
    rx: Receiver<T>,
}

/// Calls `flume::bounded`, which creates a channel that holds up to `cap` messages.
#[verifier::external_body]
fn flume_bounded<T>(cap: usize) -> (r: Queue<T>) {
    let (tx, rx) = flume::bounded(cap);
    Queue { tx, rx }
}

/// Calls `flume::Sender::try_send` on the queue. It hands the message back when it is not
/// sent. As the source shows, it fails only when the queue is full or every receiver has gone;
/// the queue holds a receiver, so here it fails only when the queue is full. Whether it is full
/// depends on the other end of the queue, so nothing is said of when the call succeeds.
#[verifier::external_body]
fn flume_try_send<T>(q: &Queue<T>, msg: T) -> (r: Result<(), T>)
    ensures
        r matches Err(m) ==> m == msg,
{
    match q.tx.try_send(msg) {
        Ok(()) => Ok(()),
        Err(TrySendError::Full(m)) => Err(m),
        Err(TrySendError::Disconnected(m)) => Err(m),
    }
}

/// Calls `flume::Receiver::try_recv` on the queue, which takes the oldest message out if there
/// is one. What it takes depends on the other end of the queue, so nothing is said of it.
#[verifier::external_body]
fn flume_try_recv<T>(q: &Queue<T>) -> (r: Option<T>) {
    q.rx.try_recv().ok()
}

impl<T> Queue<T> {
    /// The sending end.
    pub closed spec fn sender(&self) -> Sender<T> {
        self.tx
    }

    /// The receiving end.
    pub closed spec fn receiver(&self) -> Receiver<T> {
        self.rx
    }

    /// Creates a queue that holds up to `cap` messages.
    pub fn bounded(cap: usize) -> (q: Queue<T>) {
        flume_bounded(cap)
    }

    /// Makes a queue of the two ends of a channel; the receiver may also be cloned and kept
    /// elsewhere to wait for messages.
    pub fn from_parts(tx: Sender<T>, rx: Receiver<T>) -> (q: Queue<T>)
        ensures
            q.sender() == tx,
            q.receiver() == rx,
    {
        Queue { tx, rx }
    }

    /// Takes the oldest message out, if there is one.
    pub fn try_recv(&self) -> (r: Option<T>) {
        flume_try_recv(self)
    }

    /// Puts a message on the queue, unless it is full; returns whether it did. Where this
    /// fails on the control plane, the client is too slow and is to be disconnected.
    pub fn send_control(&self, msg: T) -> (sent: bool) {
        match flume_try_send(self, msg) {
            Ok(()) => true,
            Err(_) => false,
        }
    }
}

/// How a message was put on a queue that drops its oldest messages.
#[derive(Debug, Clone, Copy, PartialEq, Eq, Structural)]
pub enum SendLossyResult {
    /// Sent at the first attempt.
    Sent,
    /// Sent after dropping this many of the oldest messages.
    SentLossy(usize),
    /// Not sent: the queue stayed full although as many messages were dropped as allowed.
    ExhaustedRetries,
}

/// What an attempt to send decides, after `dropped` messages were dropped: where the message
/// was sent, how; where it was not, whether to give up (`retries` messages have been dropped
/// already) or to drop the oldest message and try again (`None`).
pub fn lossy_step(dropped: usize, retries: usize, sent: bool) -> (r: Option<SendLossyResult>)
    ensures
        sent && dropped == 0 ==> r == Some(SendLossyResult::Sent),
        sent && dropped > 0 ==> r == Some(SendLossyResult::SentLossy(dropped)),
        !sent && dropped >= retries ==> r == Some(SendLossyResult::ExhaustedRetries),
        !sent && dropped < retries ==> r is None,
{
    if sent {
        if dropped == 0 {
            Some(SendLossyResult::Sent)
        } else {
            Some(SendLossyResult::SentLossy(dropped))
        }
    } else if dropped >= retries {
        Some(SendLossyResult::ExhaustedRetries)
    } else {
        None
    }
}

/// Puts a message on the queue. Where the queue is full, drops its oldest message and tries
/// again, dropping at most `retries` messages; as `lossy_step` decides at each attempt.
pub fn send_lossy<T>(q: &Queue<T>, message: T, retries: usize) -> (r: SendLossyResult)
    ensures
        r matches SendLossyResult::SentLossy(d) ==> 0 < d <= retries,
{
    let mut message = message;
    let mut dropped: usize = 0;
    loop
        invariant
            dropped <= retries,
        decreases retries - dropped,
    {
        match flume_try_send(q, message) {
            Ok(()) => {
                return lossy_step(dropped, retries, true).unwrap();
            },
            Err(rejected) => match lossy_step(dropped, retries, false) {
                Some(result) => {
                    return result;
                },
                None => {
                    message = rejected;
                },
            },
        }
        let _ = flume_try_recv(q);
        dropped = dropped + 1;
    }
}

} // verus!
