//! Hotkey events and their delivery.

use crate::error::InputError;
use std::sync::mpsc::{SyncSender, TrySendError};
use vstd::prelude::*;

verus! {

/// What the listener tells the recorder.
#[derive(Clone, Copy, Debug, Eq, PartialEq, Structural)]
pub enum HotkeyEvent {
    Start,
    Finish,
    Cancel,
}

/// `std::sync::mpsc::SyncSender`: the sending half of a bounded channel.
#[verifier::external_type_specification]
#[verifier::external_body]
#[verifier::reject_recursive_types(T)]
pub struct ExSyncSender<T>(SyncSender<T>);

/// `std::sync::mpsc::TrySendError`: why a value could not be queued.
#[verifier::external_type_specification]
pub struct ExTrySendError<T>(TrySendError<T>);

/// `SyncSender::try_send`: queues the value or fails without blocking. Which
/// of the two happens is up to the receiving thread and is left open; a value
/// that meets a closed channel is handed back.
pub assume_specification<T>[ SyncSender::<T>::try_send ](
    sender: &SyncSender<T>,
    value: T,
) -> (reply: Result<(), TrySendError<T>>)
    ensures
        reply matches Err(TrySendError::Disconnected(returned)) ==> returned == value,
;

/// What a reply of the queue means: queued, refused for lack of room, or
/// nobody there to receive.
pub open spec fn outcome_of(reply: Result<(), TrySendError<HotkeyEvent>>) -> Result<
    bool,
    InputError,
> {
    match reply {
        Ok(_) => Ok(true),
        Err(TrySendError::Full(_)) => Err(InputError::QueueOverflow),
        Err(TrySendError::Disconnected(_)) => Ok(false),
    }
}

/// Sorts a reply of the queue: whether the listener goes on, or that it
/// failed.
pub fn delivery_outcome(reply: Result<(), TrySendError<HotkeyEvent>>) -> (outcome: Result<
    bool,
    InputError,
>)
    ensures
        outcome == outcome_of(reply),
{
    match reply {
        Ok(()) => Ok(true),
        Err(TrySendError::Full(_)) => Err(InputError::QueueOverflow),
        Err(TrySendError::Disconnected(_)) => Ok(false),
    }
}

/// Calls the queue, and keeps on record that the reply came from that call. The
/// queue is taken by value, so it can be called no more than once.
fn ask<F>(queue: F, sender: &SyncSender<HotkeyEvent>, event: HotkeyEvent) -> (reply: Result<
    (),
    TrySendError<HotkeyEvent>,
>) where
    F: FnOnce(&SyncSender<HotkeyEvent>, HotkeyEvent) -> Result<(), TrySendError<HotkeyEvent>>,

    requires
        call_requires(queue, (sender, event)),
    ensures
        call_ensures(queue, (sender, event), reply),
{
    queue(sender, event)
}

/// Whether `outcome` is what an answer of the queue to this event means.
pub open spec fn answers(
    sender: &SyncSender<HotkeyEvent>,
    event: HotkeyEvent,
    outcome: Result<bool, InputError>,
) -> bool {
    exists|reply: Result<(), TrySendError<HotkeyEvent>>|
        {
            &&& #[trigger] call_ensures(
                SyncSender::<HotkeyEvent>::try_send,
                (sender, event),
                reply,
            )
            &&& outcome == outcome_of(reply)
        }
}

/// Queues an event without ever blocking the listener.
///
/// `Ok(true)` means that it was queued and `Ok(false)` that nobody listens any
/// more; a full queue is an error. Which of them it is depends on the
/// receiving thread; in any case it is what [`delivery_outcome`] makes of the
/// queue's answer to this very event. The body makes one offer. That it makes
/// no second one is not part of the contract: the queue lies behind a shared
/// reference, and an offer leaves no trace in a sender that a contract could
/// speak of.
pub fn send_event(sender: &SyncSender<HotkeyEvent>, event: HotkeyEvent) -> (outcome: Result<
    bool,
    InputError,
>)
    ensures
        answers(sender, event, outcome),
        outcome matches Err(error) ==> error is QueueOverflow,
{
    let reply = ask(SyncSender::<HotkeyEvent>::try_send, sender, event);
    delivery_outcome(reply)
}

/// A queued event goes on, a closed queue ends in good order, and a full one is
/// an overflow, whatever event comes back with it.
pub proof fn law_replies_are_told_apart(
    reply: Result<(), TrySendError<HotkeyEvent>>,
    outcome: Result<bool, InputError>,
)
    requires
        call_ensures(delivery_outcome, (reply,), outcome),
    ensures
        reply is Ok <==> outcome == Ok::<bool, InputError>(true),
        (reply matches Err(error) && error is Disconnected) <==> outcome == Ok::<bool, InputError>(
            false,
        ),
        (reply matches Err(error) && error is Full) <==> outcome == Err::<bool, InputError>(
            InputError::QueueOverflow,
        ),
{
}

/// Whatever is returned for an event is the meaning of an answer that the queue
/// gave to an offer of that event on that sender.
pub proof fn law_outcomes_come_from_the_queue(
    sender: &SyncSender<HotkeyEvent>,
    event: HotkeyEvent,
    outcome: Result<bool, InputError>,
)
    requires
        call_ensures(send_event, (sender, event), outcome),
    ensures
        exists|reply: Result<(), TrySendError<HotkeyEvent>>|
            {
                &&& #[trigger] call_ensures(
                    SyncSender::<HotkeyEvent>::try_send,
                    (sender, event),
                    reply,
                )
                &&& match reply {
                    Ok(_) => outcome == Ok::<bool, InputError>(true),
                    Err(TrySendError::Full(_)) => outcome == Err::<bool, InputError>(
                        InputError::QueueOverflow,
                    ),
                    Err(TrySendError::Disconnected(returned)) => outcome == Ok::<bool, InputError>(
                        false,
                    ) && returned == event,
                }
            },
{
}

} // verus!
