//! The fan-out bus: a `tokio` broadcast channel of serialized events, and
//! what a publish attempt reports.

use tokio::sync::broadcast::error::SendError;
use tokio::sync::broadcast::{Receiver, Sender};
use vstd::prelude::*;

verus! {

/// `tokio::sync::broadcast::Sender`, the sending half of the channel.
#[verifier::external_type_specification]
#[verifier::external_body]
#[verifier::reject_recursive_types(T)]
pub struct ExSender<T>(Sender<T>);

/// `tokio::sync::broadcast::Receiver`, one subscriber's handle on the channel.
#[verifier::external_type_specification]
#[verifier::external_body]
#[verifier::reject_recursive_types(T)]
pub struct ExReceiver<T>(Receiver<T>);

/// `tokio::sync::broadcast::error::SendError`, a refused send with the value
/// that was not sent.
#[verifier::external_type_specification]
#[verifier::external_body]
#[verifier::reject_recursive_types(T)]
pub struct ExSendError<T>(SendError<T>);

/// The number of messages that the bus keeps for a subscriber that lags.
pub const BUS_CAPACITY: usize = 256;

/// The capacity that a bus was made with. The channel keeps that many
/// messages, rounded up to a power of two, for a subscriber that has not
/// read them; one that falls further behind loses the oldest.
pub uninterp spec fn capacity_of(tx: Sender<String>) -> usize;

/// Makes a bus of the given capacity.
///
/// Calls `Sender::new`, which gives the sending half of a new channel made
/// with that capacity; no receiver is subscribed to it yet. `Sender::new`
/// panics on a capacity of zero or above `usize::MAX / 2`.
#[verifier::external_body]
pub(crate) fn new_bus(capacity: usize) -> (tx: Sender<String>)
    requires
        0 < capacity <= usize::MAX / 2,
    ensures
        capacity_of(tx) == capacity,
{
    Sender::new(capacity)
}

/// `Sender::receiver_count`: the number of receivers subscribed at the
/// moment of the call. Other tasks subscribe and unsubscribe meanwhile, so
/// nothing is claimed of it.
pub assume_specification<T>[ Sender::<T>::receiver_count ](tx: &Sender<T>) -> (count: usize)
;

/// `Sender::send`: hands the value to every receiver subscribed at that
/// moment and returns their number, or returns the value in an error if
/// there is none. So a number that comes back is at least one, and an error
/// means that nobody was subscribed, and nothing else.
pub assume_specification<T>[ Sender::<T>::send ](tx: &Sender<T>, value: T) -> (sent: Result<
    usize,
    SendError<T>,
>)
    ensures
        sent matches Ok(receivers) ==> receivers >= 1,
;

/// `Sender::subscribe`: a new receiver, which sees what is sent from now on.
/// Nothing is claimed of it. The call panics once a quarter of `usize::MAX`
/// receivers are subscribed, more than memory can hold.
pub assume_specification<T>[ Sender::<T>::subscribe ](tx: &Sender<T>) -> (rx: Receiver<T>)
;

/// What a publish attempt reports to the publisher.
#[derive(Debug, Clone, PartialEq, Eq)]
pub enum PublishOutcome {
    /// Nobody was subscribed: the event is dropped, which is no failure.
    Dropped,
    /// The bus took the event for this many subscribers.
    Delivered { receivers: usize },
    /// The bus itself failed to take the event. The channel in use has no
    /// such fault: it turns a message away only when nobody is subscribed,
    /// and that is `Dropped`.
    Failed { error: String },
}

impl PublishOutcome {
    /// Whether the publisher is told that the publish succeeded.
    pub open spec fn is_success(&self) -> bool {
        !(self is Failed)
    }

    /// The number of receivers that the publisher is told, if the publish succeeded.
    pub open spec fn receiver_total(&self) -> Option<usize> {
        match *self {
            PublishOutcome::Dropped => Some(0usize),
            PublishOutcome::Delivered { receivers } => Some(receivers),
            PublishOutcome::Failed { .. } => None,
        }
    }

    /// The failure that the publisher is told, if the publish failed.
    pub open spec fn failure(&self) -> Option<Seq<char>> {
        match *self {
            PublishOutcome::Failed { error } => Some(error@),
            _ => None,
        }
    }

    /// Whether the publish succeeded.
    pub fn success(&self) -> (ok: bool)
        ensures
            ok == self.is_success(),
    {
        match self {
            PublishOutcome::Failed { .. } => false,
            _ => true,
        }
    }

    /// The number of receivers to report, where the publish succeeded.
    pub fn receivers(&self) -> (total: Option<usize>)
        ensures
            total == self.receiver_total(),
    {
        match self {
            PublishOutcome::Dropped => Some(0),
            PublishOutcome::Delivered { receivers } => Some(*receivers),
            PublishOutcome::Failed { .. } => None,
        }
    }

    /// The failure to report, where the publish failed.
    pub fn error(&self) -> (text: Option<String>)
        ensures
            match text {
                Some(t) => self.failure() == Some(t@),
                None => self.failure() is None,
            },
    {
        match self {
            PublishOutcome::Failed { error } => Some(error.clone()),
            _ => None,
        }
    }
}

/// How a publish goes on once the number of subscribers is read.
pub enum PublishStep {
    /// Hand this message to the bus.
    Send(String),
    /// The publish is over with this outcome.
    Done(PublishOutcome),
}

/// The step that follows when `receiver_count` subscribers were counted:
/// with none the event is dropped, otherwise the message goes to the bus.
pub open spec fn planned(receiver_count: usize, message: String) -> PublishStep {
    if receiver_count > 0 {
        PublishStep::Send(message)
    } else {
        PublishStep::Done(PublishOutcome::Dropped)
    }
}

/// Decides, from the number of subscribers, whether a message goes to the bus.
pub fn plan_publish(receiver_count: usize, message: String) -> (step: PublishStep)
    ensures
        step == planned(receiver_count, message),
{
    if receiver_count > 0 {
        PublishStep::Send(message)
    } else {
        PublishStep::Done(PublishOutcome::Dropped)
    }
}

/// The outcome that an answer of the bus stands for. The bus answers with
/// the number of subscribers that it took the message for, or with an error
/// where the last subscriber has left since they were counted; then the
/// event is dropped like any other that finds nobody, which is no failure.
pub open spec fn settled(sent: Result<usize, SendError<String>>) -> PublishOutcome {
    match sent {
        Ok(receivers) => PublishOutcome::Delivered { receivers },
        Err(_) => PublishOutcome::Dropped,
    }
}

/// Turns the answer of the bus into the outcome of the publish.
pub fn settle_publish(sent: Result<usize, SendError<String>>) -> (outcome: PublishOutcome)
    ensures
        outcome == settled(sent),
{
    match sent {
        Ok(receivers) => PublishOutcome::Delivered { receivers },
        Err(_) => PublishOutcome::Dropped,
    }
}

/// Publishes a serialized event: reads the number of subscribers and, if
/// there is one, hands the message to the bus. The call never waits for a
/// subscriber. The count and the bus's answer depend on what other tasks do
/// meanwhile; whatever they are, the publish succeeds, and a delivery names
/// at least one receiver.
pub fn publish(tx: &Sender<String>, message: String) -> (outcome: PublishOutcome)
    ensures
        outcome.is_success(),
        outcome matches PublishOutcome::Delivered { receivers } ==> receivers >= 1,
{
    match plan_publish(tx.receiver_count(), message) {
        PublishStep::Send(message) => settle_publish(tx.send(message)),
        PublishStep::Done(outcome) => outcome,
    }
}

/// A publish that finds no subscriber is over at once, and reports success
/// with zero receivers.
pub proof fn lemma_publish_without_subscribers(message: String)
    ensures
        planned(0, message) == PublishStep::Done(PublishOutcome::Dropped),
        PublishOutcome::Dropped.is_success(),
        PublishOutcome::Dropped.receiver_total() == Some(0usize),
{
}

/// Having no subscriber never makes a publish fail, at whatever moment of
/// the publish they are found missing: not when they are counted, and not
/// when the bus turns the message away because the last one has left since.
/// Both report success with zero receivers.
pub proof fn lemma_no_subscriber_is_no_failure(
    receiver_count: usize,
    message: String,
    sent: Result<usize, SendError<String>>,
)
    ensures
        planned(receiver_count, message) matches PublishStep::Done(outcome) ==> outcome.is_success()
            && outcome.receiver_total() == Some(0usize),
        settled(sent).is_success(),
        sent is Err ==> settled(sent).receiver_total() == Some(0usize),
{
}

} // verus!
