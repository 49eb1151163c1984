//! The delivery bus: one broadcast channel that carries every published
//! message to every reader that is subscribed at that moment.
//!
//! The channel is `tokio`'s. It does not look at recipients: each reader
//! picks out what is addressed to it. A reader that falls further behind than
//! the backlog loses the oldest messages it has not read.

use vstd::prelude::*;
use crate::request::Message;

verus! {

/// The sending half of `tokio`'s broadcast channel, taken as it is: nothing
/// is known of what is inside.
#[verifier::external_type_specification]
#[verifier::external_body]
#[verifier::reject_recursive_types(T)]
pub struct ExSender<T>(tokio::sync::broadcast::Sender<T>);

/// A subscription to `tokio`'s broadcast channel, taken as it is and only
/// carried through.
#[verifier::external_type_specification]
#[verifier::external_body]
#[verifier::reject_recursive_types(T)]
pub struct ExReceiver<T>(tokio::sync::broadcast::Receiver<T>);

/// How many messages the bus keeps for a reader that is behind.
pub const BACKLOG: usize = 16;

/// What the bus answered to one message.
#[derive(Debug)]
pub enum Sent {
    /// The bus took the message while this many readers were subscribed.
    Published(usize),
    /// Nobody was subscribed: the bus gave the message back.
    Unsent(Message),
}

/// The least power of two that is not below `capacity`, looked for from the
/// power `from` upwards.
pub open spec fn power_of_two_from(capacity: nat, from: nat) -> nat
    decreases
            (if from < capacity {
                capacity - from
            } else {
                0
            }),
{
    if from == 0 || from >= capacity {
        from
    } else {
        power_of_two_from(capacity, 2 * from)
    }
}

/// The backlog of a bus that is asked to keep `capacity` messages: the least
/// power of two that is not below `capacity`.
pub open spec fn rounded_backlog(capacity: nat) -> nat {
    power_of_two_from(capacity, 1)
}

/// The backlog of a bus: how many messages it keeps for a reader that is
/// behind. It is fixed when the bus is opened.
pub uninterp spec fn bus_backlog(bus: tokio::sync::broadcast::Sender<Message>) -> nat;

/// Opens a channel that is asked to keep `capacity` messages for its
/// readers. No reader is subscribed to it yet.
///
/// Trusted: this is `tokio::sync::broadcast::channel`, of which the sending
/// half is kept. The channel rounds the capacity that the call names up to a
/// power of two and keeps that many messages; the call panics outside the
/// stated range of capacities.
#[verifier::external_body]
pub(crate) fn open_bus(capacity: usize) -> (bus: tokio::sync::broadcast::Sender<Message>)
    requires
        0 < capacity <= usize::MAX / 2,
    ensures
        bus_backlog(bus) == rounded_backlog(capacity as nat),
{
    tokio::sync::broadcast::channel(capacity).0
}

/// Hands one message to the channel.
///
/// Trusted: this is `tokio::sync::broadcast::Sender::send`. Whether the
/// channel takes the message depends on who is subscribed at that moment, so
/// nothing is promised of it. The channel takes a message only while a reader
/// is subscribed and then says how many are; a message that it refuses comes
/// back as it went in.
#[verifier::external_body]
pub(crate) fn bus_send(bus: &tokio::sync::broadcast::Sender<Message>, message: Message) -> (out:
    Result<usize, Message>)
    ensures
        out matches Ok(readers) ==> readers >= 1,
        out matches Err(back) ==> back == message,
{
    match bus.send(message) {
        Ok(readers) => Ok(readers),
        Err(refused) => Err(refused.0),
    }
}

/// What the bus's answer means.
pub open spec fn sent_of(answer: Result<usize, Message>) -> Sent {
    match answer {
        Ok(readers) => Sent::Published(readers),
        Err(message) => Sent::Unsent(message),
    }
}

/// Reads the bus's answer to one message.
pub fn sent_from(answer: Result<usize, Message>) -> (sent: Sent)
    ensures
        sent == sent_of(answer),
{
    match answer {
        Ok(readers) => Sent::Published(readers),
        Err(message) => Sent::Unsent(message),
    }
}

/// Whether `sent` can be the bus's answer to `message`: the bus takes a
/// message only while it has a reader, and a message that comes back is the
/// one that went in.
pub open spec fn answers(sent: Sent, message: Message) -> bool {
    match sent {
        Sent::Published(readers) => readers >= 1,
        Sent::Unsent(back) => back == message,
    }
}

/// The messages that the bus gave back, in the order of the answers.
pub open spec fn refused(answers: Seq<Sent>) -> Seq<Message>
    decreases answers.len(),
{
    if answers.len() == 0 {
        Seq::empty()
    } else {
        match answers.last() {
            Sent::Published(_) => refused(answers.drop_last()),
            Sent::Unsent(message) => refused(answers.drop_last()).push(message),
        }
    }
}

/// A bus: the sending half of a channel, and the record of every message
/// that was handed to the channel through this bus, in the order of handing.
/// The record counts a message whether the channel took it or gave it back.
pub struct Bus {
    sender: tokio::sync::broadcast::Sender<Message>,
    handed: Ghost<Seq<Message>>,
}

impl Bus {
    /// The channel of this bus.
    pub closed spec fn channel(&self) -> tokio::sync::broadcast::Sender<Message> {
        self.sender
    }

    /// Every message that was handed to the channel through this bus, first
    /// one first.
    pub closed spec fn handed(&self) -> Seq<Message> {
        self.handed@
    }

    /// Opens a bus that is asked to keep `capacity` messages for a reader
    /// that is behind. It keeps the least power of two that is not below
    /// `capacity`; nothing was handed to it yet.
    pub fn open(capacity: usize) -> (bus: Self)
        requires
            0 < capacity <= usize::MAX / 2,
        ensures
            bus_backlog(bus.channel()) == rounded_backlog(capacity as nat),
            bus.handed() == Seq::<Message>::empty(),
    {
        Bus { sender: open_bus(capacity), handed: Ghost(Seq::empty()) }
    }

    /// The sending half of the channel. A reader is subscribed through it.
    pub fn sender(&self) -> (sender: &tokio::sync::broadcast::Sender<Message>)
        ensures
            *sender == self.channel(),
    {
        &self.sender
    }

    /// Publishes one message: hands it to the channel, which is recorded,
    /// and reads the answer. Either the channel took the message while it had
    /// at least one reader, or it had none and the message is handed back
    /// unchanged. Which of the two, and how many readers, is for the channel
    /// to say.
    pub fn publish(&mut self, message: Message) -> (sent: Sent)
        ensures
            answers(sent, message),
            final(self).channel() == old(self).channel(),
            final(self).handed() == old(self).handed().push(message),
    {
        self.handed = Ghost(self.handed@.push(message));
        sent_from(bus_send(&self.sender, message))
    }

    /// Publishes a batch, first message first, and returns the channel's
    /// answer to each message, in the same order. The channel is tried for
    /// every message, whatever became of the ones before it.
    pub fn publish_all(&mut self, batch: &Vec<Message>) -> (out: Vec<Sent>)
        ensures
            out@.len() == batch@.len(),
            forall|i: int| 0 <= i < batch@.len() ==> answers(#[trigger] out@[i], batch@[i]),
            final(self).channel() == old(self).channel(),
            final(self).handed() == old(self).handed() + batch@,
    {
        let mut out: Vec<Sent> = Vec::new();
        let mut i: usize = 0;
        while i < batch.len()
            invariant
                i <= batch.len(),
                out@.len() == i,
                forall|j: int| 0 <= j < i ==> answers(#[trigger] out@[j], batch@[j]),
                self.channel() == old(self).channel(),
                self.handed() == old(self).handed() + batch@.take(i as int),
            decreases batch.len() - i,
        {
            let sent = self.publish(batch[i].clone());
            out.push(sent);
            assert(batch@.take(i + 1) =~= batch@.take(i as int).push(batch@[i as int]));
            i += 1;
        }
        assert(batch@.take(batch.len() as int) =~= batch@);
        out
    }
}

/// Picks out of the bus's answers the messages that it gave back, in order.
pub fn unsent_of(answers: &Vec<Sent>) -> (unsent: Vec<Message>)
    ensures
        unsent@ == refused(answers@),
{
    let mut unsent: Vec<Message> = Vec::new();
    let mut i: usize = 0;
    while i < answers.len()
        invariant
            i <= answers.len(),
            unsent@ == refused(answers@.take(i as int)),
        decreases answers.len() - i,
    {
        assert(answers@.take(i + 1).drop_last() =~= answers@.take(i as int));
        match &answers[i] {
            Sent::Published(_) => {},
            Sent::Unsent(message) => unsent.push(message.clone()),
        }
        i += 1;
    }
    assert(answers@.take(answers.len() as int) =~= answers@);
    unsent
}

} // verus!
