//! What holds of every run of the relay.
//!
//! The laws speak of a relay as a whole: its directory, everything that it
//! has handed to the bus so far, in the order of handing, and its readers,
//! each with the user it serves and the point from which it listens. Each
//! step of that world is what the server's operations do. A connection logs
//! its user in; where it is one for reading its reader is subscribed; then
//! what waited for the user is published. A sent message is published where
//! its recipient is reachable and queued where not. A reader forwards, of
//! what the bus carried since it subscribed, what is addressed to its user.
//!
//! The directory of the world is the view of a server, and the bus of the
//! world is the server's record of what it has handed to its bus: the
//! server's steps state of both exactly what `connect` and `send` say here.
//!
//! The bus of the laws keeps everything. The real one forgets the oldest
//! messages of a reader that is further behind than the backlog, and it
//! refuses a message while it has no reader at all.

use vstd::prelude::*;
use crate::registry::Directory;
use crate::request::{ConnectType, MessageView};
use crate::server::forwards;

verus! {

/// What a reader for `ident` forwards out of `carried`, in the same order.
pub open spec fn observed(ident: Seq<char>, carried: Seq<MessageView>) -> Seq<MessageView>
    decreases carried.len(),
{
    if carried.len() == 0 {
        Seq::empty()
    } else if forwards(ident, carried.last()) {
        observed(ident, carried.drop_last()).push(carried.last())
    } else {
        observed(ident, carried.drop_last())
    }
}

/// What happens to a relay: somebody connects, for reading or for writing,
/// or somebody sends a message.
pub enum Event {
    Connect(Seq<char>, ConnectType),
    Send(MessageView),
}

/// The messages that `events` send, in order.
pub open spec fn sent(events: Seq<Event>) -> Seq<MessageView>
    decreases events.len(),
{
    if events.len() == 0 {
        Seq::empty()
    } else {
        match events.last() {
            Event::Send(message) => sent(events.drop_last()).push(message),
            Event::Connect(_, _) => sent(events.drop_last()),
        }
    }
}

/// Whether `name` connects in `events`, in either direction.
pub open spec fn connects(events: Seq<Event>, name: Seq<char>) -> bool {
    exists|i: int|
        0 <= i < events.len() && (#[trigger] events[i] matches Event::Connect(who, _) && who
            == name)
}

/// A reader: the user it serves, and how many messages the bus had carried
/// when it subscribed.
pub struct Reader {
    pub ident: Seq<char>,
    pub since: nat,
}

/// A relay as a whole.
pub struct World {
    pub directory: Directory,
    pub bus: Seq<MessageView>,
    pub readers: Seq<Reader>,
}

impl World {
    /// The world of a relay that has seen nobody yet.
    pub open spec fn fresh() -> World {
        World { directory: Directory::empty(), bus: Seq::empty(), readers: Seq::empty() }
    }

    /// What holds of every world that a relay reaches: its directory is in
    /// good order, and every reader serves a reachable user and subscribed
    /// at a point that the bus has reached.
    pub open spec fn well_formed(self) -> bool {
        &&& self.directory.well_formed()
        &&& forall|k: int|
            0 <= k < self.readers.len() ==> {
                &&& self.directory.reachable.contains((#[trigger] self.readers[k]).ident)
                &&& self.readers[k].since <= self.bus.len()
            }
    }

    /// The world after `name` has connected in the direction `connect_type`:
    /// the reader of a connection for reading listens from here on, and what
    /// waited for `name` follows on the bus, oldest first.
    pub open spec fn connect(self, name: Seq<char>, connect_type: ConnectType) -> World {
        World {
            directory: self.directory.login(name),
            bus: self.bus + self.directory.released(name),
            readers: if connect_type == ConnectType::Read {
                self.readers.push(Reader { ident: name, since: self.bus.len() })
            } else {
                self.readers
            },
        }
    }

    /// The world after `message` has been sent.
    pub open spec fn send(self, message: MessageView) -> World {
        World {
            directory: self.directory.route(message),
            bus: if self.directory.publishes(message) {
                self.bus.push(message)
            } else {
                self.bus
            },
            readers: self.readers,
        }
    }

    /// The world after one event.
    pub open spec fn step(self, event: Event) -> World {
        match event {
            Event::Connect(name, connect_type) => self.connect(name, connect_type),
            Event::Send(message) => self.send(message),
        }
    }

    /// The world after `events`, first event first.
    pub open spec fn run(self, events: Seq<Event>) -> World
        decreases events.len(),
    {
        if events.len() == 0 {
            self
        } else {
            self.run(events.drop_last()).step(events.last())
        }
    }

    /// What the reader at place `k` has forwarded so far.
    pub open spec fn forwarded(self, k: int) -> Seq<MessageView> {
        observed(self.readers[k].ident, self.bus.skip(self.readers[k].since as int))
    }
}

/// A reader forwards of two stretches what it forwards of each.
pub proof fn lemma_observed_add(ident: Seq<char>, first: Seq<MessageView>, then: Seq<MessageView>)
    ensures
        observed(ident, first + then) == observed(ident, first) + observed(ident, then),
    decreases then.len(),
{
    if then.len() > 0 {
        assert((first + then).drop_last() =~= first + then.drop_last());
        lemma_observed_add(ident, first, then.drop_last());
    }
}

/// Of messages that are all addressed to `name`, the reader for `name`
/// forwards every one and any other reader none.
pub proof fn lemma_observed_queue(ident: Seq<char>, name: Seq<char>, queue: Seq<MessageView>)
    requires
        forall|k: int| 0 <= k < queue.len() ==> (#[trigger] queue[k]).to == name,
    ensures
        observed(ident, queue) == (if ident == name {
            queue
        } else {
            Seq::empty()
        }),
    decreases queue.len(),
{
    if queue.len() > 0 {
        lemma_observed_queue(ident, name, queue.drop_last());
    }
}

/// What a connection sets free is addressed to the connecting user alone.
pub proof fn lemma_released_is_addressed(directory: Directory, name: Seq<char>, ident: Seq<char>)
    requires
        directory.well_formed(),
    ensures
        observed(ident, directory.released(name)) == (if ident == name {
            directory.released(name)
        } else {
            Seq::empty()
        }),
{
    if !directory.reachable.contains(name) && directory.pending.dom().contains(name) {
        lemma_observed_queue(ident, name, directory.released(name));
    }
}

/// Every step keeps a world in good order.
pub proof fn lemma_step_keeps_order(world: World, event: Event)
    requires
        world.well_formed(),
    ensures
        world.step(event).well_formed(),
{
    let next = world.step(event);
    assert forall|name: Seq<char>, k: int| #[trigger]
        next.directory.pending.dom().contains(name) && 0 <= k
            < next.directory.pending[name].len() implies (
    #[trigger] next.directory.pending[name][k]).to == name by {}
    assert forall|k: int| 0 <= k < next.readers.len() implies {
        &&& next.directory.reachable.contains((#[trigger] next.readers[k]).ident)
        &&& next.readers[k].since <= next.bus.len()
    } by {}
}

/// Whatever happens, the relay stays in good order: from a fresh relay, after
/// any events, every queue is non-empty, for a user who is not reachable, and
/// of messages to that user, and every reader serves a reachable user.
pub proof fn law_every_run_is_in_order(events: Seq<Event>)
    ensures
        World::fresh().run(events).well_formed(),
    decreases events.len(),
{
    if events.len() > 0 {
        law_every_run_is_in_order(events.drop_last());
        lemma_step_keeps_order(World::fresh().run(events.drop_last()), events.last());
    }
}

/// A message to a reachable user is published at once, and of all readers
/// exactly those that serve its recipient forward it.
///
/// For every world in good order in which the recipient of `message` is
/// reachable, and every reader of it: sending the message leaves the
/// directory and the readers as they were and puts the message on the bus,
/// and the reader forwards the message, behind all that it forwarded before,
/// if it serves the recipient, and forwards nothing new if it serves
/// somebody else.
pub proof fn law_published_to_recipient_only(world: World, message: MessageView, k: int)
    requires
        world.well_formed(),
        world.directory.publishes(message),
        0 <= k < world.readers.len(),
    ensures
        world.send(message).directory == world.directory,
        world.send(message).readers == world.readers,
        world.send(message).bus == world.bus.push(message),
        world.send(message).forwarded(k) == (if world.readers[k].ident == message.to {
            world.forwarded(k).push(message)
        } else {
            world.forwarded(k)
        }),
{
    let since = world.readers[k].since as int;
    let carried = world.bus.skip(since);
    let longer = world.send(message).bus.skip(since);
    assert(longer.drop_last() =~= carried);
}

/// A message to a user who is not reachable is held and not published: it
/// goes to the end of the recipient's queue; no other queue changes, nothing
/// reaches the bus, and so no reader forwards anything new.
pub proof fn law_unreachable_is_held(world: World, message: MessageView, other: Seq<char>)
    requires
        !world.directory.publishes(message),
    ensures
        world.send(message).bus == world.bus,
        world.send(message).readers == world.readers,
        world.send(message).directory.reachable == world.directory.reachable,
        world.send(message).directory.queue(message.to) == world.directory.queue(
            message.to,
        ).push(message),
        other != message.to ==> world.send(message).directory.queue(other)
            == world.directory.queue(other),
{
}

/// What is sent to a user before the user's first connection waits, and a
/// first connection for reading delivers it whole, once and in order.
///
/// Take a world in good order in which `name` is not reachable, and any
/// events in which `name` does not connect. After them `name` is still not
/// reachable and no reader serves it, and its queue is what it was followed
/// by the messages to `name` that were sent, in the order of sending. When
/// `name` then connects for reading, the new reader forwards exactly that
/// queue, every other reader forwards what it had forwarded and no more, and
/// nothing waits for `name` any longer.
pub proof fn law_held_then_delivered_in_order(world: World, events: Seq<Event>, name: Seq<char>)
    requires
        world.well_formed(),
        !world.directory.reachable.contains(name),
        !connects(events, name),
    ensures
        ({
            let waiting = world.run(events);
            let held = world.directory.queue(name) + observed(name, sent(events));
            let after = waiting.connect(name, ConnectType::Read);
            let newcomer = waiting.readers.len() as int;
            &&& waiting.well_formed()
            &&& !waiting.directory.reachable.contains(name)
            &&& forall|k: int|
                0 <= k < waiting.readers.len() ==> (#[trigger] waiting.readers[k]).ident != name
            &&& waiting.directory.queue(name) == held
            &&& after.readers == waiting.readers.push(
                Reader { ident: name, since: waiting.bus.len() },
            )
            &&& after.forwarded(newcomer) == held
            &&& forall|k: int|
                0 <= k < waiting.readers.len() ==> #[trigger] after.forwarded(k)
                    == waiting.forwarded(k)
            &&& after.directory.queue(name) == Seq::<MessageView>::empty()
            &&& after.directory.reachable.contains(name)
        }),
    decreases events.len(),
{
    if events.len() > 0 {
        // the events but the last leave `name` waiting; the last one keeps it so
        let earlier = events.drop_last();
        assert(!connects(earlier, name)) by {
            if connects(earlier, name) {
                let i = choose|i: int|
                    0 <= i < earlier.len() && (#[trigger] earlier[i] matches Event::Connect(
                        who,
                        _,
                    ) && who == name);
                assert(events[i] == earlier[i]);
            }
        }
        law_held_then_delivered_in_order(world, earlier, name);
        lemma_step_keeps_order(world.run(earlier), events.last());
        if events.last() is Send {
            assert(sent(events).drop_last() =~= sent(earlier));
        }
    }
    // the connection: the newcomer listens from the end of the bus, where
    // the queue then follows
    let waiting = world.run(events);
    let held = world.directory.queue(name) + observed(name, sent(events));
    let after = waiting.connect(name, ConnectType::Read);
    assert(after.bus.skip(waiting.bus.len() as int) =~= held);
    lemma_released_is_addressed(waiting.directory, name, name);
    assert forall|k: int| 0 <= k < waiting.readers.len() implies #[trigger] after.forwarded(k)
        == waiting.forwarded(k) by {
        let reader = waiting.readers[k];
        let since = reader.since as int;
        assert(after.bus.skip(since) =~= waiting.bus.skip(since) + held);
        lemma_observed_add(reader.ident, waiting.bus.skip(since), held);
        lemma_released_is_addressed(waiting.directory, name, reader.ident);
    }
}

/// Connecting again changes nothing that is shared: the second connection
/// of a user, in whichever directions the two are, leaves the directory and
/// the bus as the first left them, so that nothing is published twice and
/// nothing is dropped. A second connection for writing leaves the readers as
/// they were too, and so the whole world.
pub proof fn law_connect_is_idempotent(
    world: World,
    name: Seq<char>,
    first: ConnectType,
    second: ConnectType,
)
    ensures
        world.connect(name, first).connect(name, second).directory == world.connect(
            name,
            first,
        ).directory,
        world.connect(name, first).connect(name, second).bus == world.connect(name, first).bus,
        second == ConnectType::Write ==> world.connect(name, first).connect(name, second)
            == world.connect(name, first),
{
}

/// A connection sets free its own user's queue, all of it and nothing else:
/// what it publishes is what waited for the user, what waits for anybody
/// else waits as before, and whoever was reachable stays so.
pub proof fn law_connect_keeps_other_queues(
    world: World,
    name: Seq<char>,
    connect_type: ConnectType,
    other: Seq<char>,
)
    requires
        other != name,
    ensures
        world.connect(name, connect_type).bus == world.bus + world.directory.released(name),
        world.connect(name, connect_type).directory.queue(other) == world.directory.queue(other),
        world.directory.reachable.contains(other) ==> world.connect(
            name,
            connect_type,
        ).directory.reachable.contains(other),
{
}

/// A message that is sent while its recipient connects is published once,
/// whichever of the two steps comes first: sent before, it is queued and the
/// connection sets it free behind what waited already; sent after, it is
/// published directly. Either way the world is the same.
pub proof fn law_send_and_connect_in_either_order(
    world: World,
    message: MessageView,
    connect_type: ConnectType,
)
    requires
        world.well_formed(),
        !world.directory.reachable.contains(message.to),
    ensures
        world.send(message).connect(message.to, connect_type) == world.connect(
            message.to,
            connect_type,
        ).send(message),
        world.connect(message.to, connect_type).send(message).bus == (world.bus
            + world.directory.queue(message.to)).push(message),
{
    let queued_first = world.send(message).connect(message.to, connect_type);
    let connected_first = world.connect(message.to, connect_type).send(message);
    assert(queued_first.directory.pending =~= connected_first.directory.pending);
}

/// Two messages that go to the same reachable recipient one after the other
/// are forwarded to it in that order: after `first` and `second` are sent, a
/// reader for the recipient has forwarded what it had before, then `first`,
/// then `second`.
pub proof fn law_order_is_kept(world: World, first: MessageView, second: MessageView, k: int)
    requires
        world.well_formed(),
        world.directory.publishes(first),
        first.to == second.to,
        0 <= k < world.readers.len(),
        world.readers[k].ident == first.to,
    ensures
        world.send(first).send(second).forwarded(k) == world.forwarded(k).push(first).push(second),
{
    law_published_to_recipient_only(world, first, k);
    lemma_step_keeps_order(world, Event::Send(first));
    law_published_to_recipient_only(world.send(first), second, k);
}

} // verus!
