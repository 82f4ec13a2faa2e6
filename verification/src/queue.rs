//! The queues of `deadqueue`, and what they hold.
use crate::message::BoxcarMessage;
use crate::transport::WireMessage;
use vstd::prelude::*;

verus! {

/// A queue of any length.
#[verifier::external_type_specification]
#[verifier::external_body]
#[verifier::reject_recursive_types(T)]
pub struct ExUnlimitedQueue<T>(deadqueue::unlimited::Queue<T>);

/// The messages in the queue, the one that came in first in front.
pub uninterp spec fn queued(queue: &deadqueue::unlimited::Queue<BoxcarMessage>) -> Seq<
    BoxcarMessage,
>;

/// The number of messages that a queue can count.
pub open spec fn queue_limit() -> nat {
    (usize::MAX / 8) as nat
}

/// Calls `deadqueue::unlimited::Queue::new`.
///
/// Claimed: the new queue is empty.
#[verifier::external_body]
pub(crate) fn queue_new() -> (queue: deadqueue::unlimited::Queue<BoxcarMessage>)
    ensures
        queued(&queue) == Seq::<BoxcarMessage>::empty(),
{
    deadqueue::unlimited::Queue::new()
}

/// Calls `deadqueue::unlimited::Queue::push`.
///
/// Claimed: the message goes behind all others. The queue counts its messages with a semaphore,
/// which has a limit.
#[verifier::external_body]
pub(crate) fn queue_push(
    queue: &mut deadqueue::unlimited::Queue<BoxcarMessage>,
    message: BoxcarMessage,
)
    requires
        queued(&*old(queue)).len() < queue_limit(),
    ensures
        queued(&*final(queue)) == queued(&*old(queue)).push(message),
{
    queue.push(message)
}

/// Calls `deadqueue::unlimited::Queue::try_pop`.
///
/// Claimed: the message in front is taken out and returned. There is none if, and only if, the
/// queue is empty.
#[verifier::external_body]
pub(crate) fn queue_try_pop(queue: &mut deadqueue::unlimited::Queue<BoxcarMessage>) -> (message:
    Option<BoxcarMessage>)
    ensures
        match message {
            Some(message) => {
                &&& queued(&*old(queue)).len() > 0
                &&& message == queued(&*old(queue))[0]
                &&& queued(&*final(queue)) == queued(&*old(queue)).skip(1)
            },
            None => {
                &&& queued(&*old(queue)).len() == 0
                &&& queued(&*final(queue)) == queued(&*old(queue))
            },
        },
{
    queue.try_pop()
}

/// Calls `deadqueue::unlimited::Queue::len`.
///
/// Claimed: it is the number of messages in the queue.
#[verifier::external_body]
pub(crate) fn queue_len(queue: &deadqueue::unlimited::Queue<BoxcarMessage>) -> (count: usize)
    ensures
        count == queued(queue).len(),
{
    queue.len()
}

/// A queue that holds no more than it was made for.
#[verifier::external_type_specification]
#[verifier::external_body]
#[verifier::reject_recursive_types(T)]
pub struct ExLimitedQueue<T>(deadqueue::limited::Queue<T>);

/// The frames in the queue, the one that came in first in front.
pub uninterp spec fn limited_queued(queue: &deadqueue::limited::Queue<WireMessage>) -> Seq<
    WireMessage,
>;

/// The number of frames that the queue was made for.
pub uninterp spec fn limited_size(queue: &deadqueue::limited::Queue<WireMessage>) -> nat;

/// Calls `deadqueue::limited::Queue::new`.
///
/// Claimed: the new queue is empty and holds up to `max_size` frames. Room for them is set aside
/// at once.
#[verifier::external_body]
pub(crate) fn limited_new(max_size: usize) -> (queue: deadqueue::limited::Queue<WireMessage>)
    requires
        0 < max_size <= 1024,
    ensures
        limited_queued(&queue) == Seq::<WireMessage>::empty(),
        limited_size(&queue) == max_size,
{
    deadqueue::limited::Queue::new(max_size)
}

/// Calls `deadqueue::limited::Queue::try_push`.
///
/// Claimed: the frame goes behind all others, unless the queue is full. A full queue stays as it
/// is and hands the frame back.
#[verifier::external_body]
pub(crate) fn limited_try_push(
    queue: &mut deadqueue::limited::Queue<WireMessage>,
    message: WireMessage,
) -> (pushed: Result<(), WireMessage>)
    ensures
        limited_size(&*final(queue)) == limited_size(&*old(queue)),
        match pushed {
            Ok(()) => {
                &&& limited_queued(&*old(queue)).len() < limited_size(&*old(queue))
                &&& limited_queued(&*final(queue)) == limited_queued(&*old(queue)).push(message)
            },
            Err(back) => {
                &&& limited_queued(&*old(queue)).len() >= limited_size(&*old(queue))
                &&& limited_queued(&*final(queue)) == limited_queued(&*old(queue))
                &&& back == message
            },
        },
{
    queue.try_push(message)
}

/// Calls `deadqueue::limited::Queue::try_pop`.
///
/// Claimed: the frame in front is taken out and returned. There is none if, and only if, the queue
/// is empty.
#[verifier::external_body]
pub(crate) fn limited_try_pop(queue: &mut deadqueue::limited::Queue<WireMessage>) -> (message:
    Option<WireMessage>)
    ensures
        limited_size(&*final(queue)) == limited_size(&*old(queue)),
        match message {
            Some(message) => {
                &&& limited_queued(&*old(queue)).len() > 0
                &&& message == limited_queued(&*old(queue))[0]
                &&& limited_queued(&*final(queue)) == limited_queued(&*old(queue)).skip(1)
            },
            None => {
                &&& limited_queued(&*old(queue)).len() == 0
                &&& limited_queued(&*final(queue)) == limited_queued(&*old(queue))
            },
        },
{
    queue.try_pop()
}

} // verus!
