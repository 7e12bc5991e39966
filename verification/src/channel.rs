//! Bounded single-producer single-consumer channels.
//!
//! All traffic between the control context and the audio context crosses
//! these ring buffers: commands inward; events outward; removed resources
//! outward for deallocation; one quit flag. Each end is owned by exactly one
//! side. What an end observes depends on how far the peer — another thread
//! in deployment — has progressed, so the contracts state only what holds of
//! every outcome, and the verified engine takes every popped value as an
//! argument.

use vstd::prelude::*;
use crate::command::Command;

verus! {

#[verifier::external_type_specification]
#[verifier::external_body]
#[verifier::reject_recursive_types(T)]
pub struct ExProducer<T>(ringbuf::Producer<T>);

#[verifier::external_type_specification]
#[verifier::external_body]
#[verifier::reject_recursive_types(T)]
pub struct ExConsumer<T>(ringbuf::Consumer<T>);

/// Relies on `ringbuf::RingBuffer::new` and `RingBuffer::split`: a bounded
/// ring buffer that holds up to `capacity` elements, handed out as its
/// producer and consumer ends.
#[verifier::external_body]
pub fn channel<T>(capacity: usize) -> (r: (ringbuf::Producer<T>, ringbuf::Consumer<T>)) {
    ringbuf::RingBuffer::new(capacity).split()
}

/// Relies on `ringbuf::Producer::push`: appends the element, or hands it
/// back unchanged when the buffer is full at the moment of the call.
#[verifier::external_body]
pub fn channel_push<T>(p: &mut ringbuf::Producer<T>, item: T) -> (r: Result<(), T>)
    ensures
        r matches Err(t) ==> t == item,
{
    p.push(item)
}

/// Relies on `ringbuf::Consumer::pop`: removes and returns the oldest
/// element, or `None` when the buffer is empty at the moment of the call.
#[verifier::external_body]
pub fn channel_pop<T>(c: &mut ringbuf::Consumer<T>) -> (r: Option<T>) {
    c.pop()
}

/// The capacity the consumer end of the command channel was created with;
/// constant for the channel's lifetime.
pub uninterp spec fn command_consumer_bound(c: ringbuf::Consumer<Command>) -> nat;

/// The control side's end of the command channel. The ghost log records
/// every command this end has handed to the channel, oldest first, so the
/// contract of each control operation can say exactly which command it
/// enqueued.
pub struct CommandProducer {
    producer: ringbuf::Producer<Command>,
    sent: Ghost<Seq<Command>>,
    bound: Ghost<nat>,
}

impl CommandProducer {
    /// Every command this end has handed to the channel, oldest first.
    pub closed spec fn sent(&self) -> Seq<Command> {
        self.sent@
    }

    /// The channel's configured capacity.
    pub closed spec fn bound(&self) -> nat {
        self.bound@
    }
}

/// Relies on `ringbuf::RingBuffer::new` and `RingBuffer::split`: the two
/// ends of one bounded buffer that holds up to `capacity` commands. The
/// fresh producer end has handed nothing over yet.
#[verifier::external_body]
pub fn command_channel(capacity: usize) -> (r: (CommandProducer, ringbuf::Consumer<Command>))
    ensures
        r.0.bound() == capacity,
        command_consumer_bound(r.1) == capacity,
        r.0.sent() == Seq::<Command>::empty(),
{
    let (producer, consumer) = ringbuf::RingBuffer::new(capacity).split();
    (
        CommandProducer { producer, sent: Ghost(Seq::empty()), bound: Ghost(capacity as nat) },
        consumer,
    )
}

/// Relies on `ringbuf::Producer::push`: appends the command — extending the
/// ghost log by exactly it — or hands it back unchanged when the buffer is
/// full at the moment of the call. The capacity never changes.
#[verifier::external_body]
pub fn command_producer_push(p: &mut CommandProducer, c: Command) -> (r: Result<(), Command>)
    ensures
        r matches Ok(()) ==> final(p).sent() == old(p).sent().push(c),
        r matches Err(t) ==> t == c && final(p).sent() == old(p).sent(),
        final(p).bound() == old(p).bound(),
{
    p.producer.push(c)
}

} // verus!
