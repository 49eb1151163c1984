//! The relay's side of every connection: what the acceptor does with a first
//! frame, what a write handler does with each later frame, and what a read
//! handler does with each message that the bus brings.
//!
//! The server owns the registry and the sending half of the bus. Each
//! operation here is one step of a loop that the caller runs around its
//! sockets: the caller reads, the server decides and changes the shared
//! state, the caller writes. A caller that keeps the server behind one lock
//! has each step as a whole, and with it the two steps that must not
//! interleave: check that a recipient is not reachable and queue, make a user
//! reachable and drain.
//!
//! A reader sees only what is published after it subscribed. So the
//! acceptor takes the subscription of a new connection before it looks at
//! the connection's first frame: whatever it then sets free finds the reader
//! listening.
//!
//! The server keeps a record of what it has handed to the bus, in the order
//! of handing. Every step says how the record grows: by the queue that a
//! connection sets free, oldest message first, or by the one message that is
//! sent to a reachable user.

use vstd::prelude::*;
use crate::bus::{answers, bus_backlog, power_of_two_from, Bus, Sent, BACKLOG};
use crate::codec::{from_slice, json_fields, json_sections, message_text, message_to_string, request_of};
use crate::error::RelayError;
use crate::registry::{views, Directory, Registry, Routing};
use crate::request::{ClientRequest, Connect, ConnectType, ConnectView, Message, MessageView, RequestView};

verus! {

/// How many bytes one frame may take: the caller reads each frame with one
/// read into a buffer of this size.
pub const FRAME_CAPACITY: usize = 1024;

/// What the acceptor grants a connection whose first frame is in order.
#[derive(Debug)]
pub struct Admission {
    /// For whom the connection is, and in which direction.
    pub connect: Connect,
    /// The connection's reader, where the connection is one for reading.
    pub reader: Option<tokio::sync::broadcast::Receiver<Message>>,
    /// The messages that waited for the user, oldest first.
    pub released: Vec<Message>,
    /// What the bus answered to each of them, in the same order.
    pub answers: Vec<Sent>,
}

/// What became of one frame on a write connection.
#[derive(Debug)]
pub enum Outcome {
    /// The read brought no bytes: the client has closed the connection.
    Closed,
    /// The message went to the bus while this many readers were subscribed.
    Published(usize),
    /// The recipient counts as reachable, yet no reader was subscribed: the
    /// bus gave the message back.
    Unsent(Message),
    /// The recipient is not reachable: the message waits in its queue.
    Queued,
}

/// What a connection's first frame must stand for: a connect value.
pub open spec fn first_frame(decoded: Option<RequestView>) -> Result<ConnectView, RelayError> {
    match decoded {
        Some(RequestView::Connect(connect)) => Ok(connect),
        _ => Err(RelayError::ProtocolViolation),
    }
}

/// What a later frame on a write connection must stand for: a message.
/// Bytes that stand for no request are malformed; a request of another kind
/// breaks the protocol.
pub open spec fn later_frame(decoded: Option<RequestView>) -> Result<MessageView, RelayError> {
    match decoded {
        Some(RequestView::Message(message)) => Ok(message),
        Some(_) => Err(RelayError::ProtocolViolation),
        None => Err(RelayError::MalformedPayload),
    }
}

/// Whether the reader that serves `ident` forwards `message`.
pub open spec fn forwards(ident: Seq<char>, message: MessageView) -> bool {
    message.to == ident
}

/// What a read handler meets on its way: what its subscription brings, and
/// what comes of writing to its client.
#[derive(Debug)]
pub enum ReadEvent {
    /// The bus brought a message.
    Arrived(Message),
    /// The reader was so far behind that the bus dropped this many of the
    /// messages it had not read.
    Lagged(u64),
    /// The bus is closed: nothing will arrive any more.
    Closed,
    /// The last frame could not be written to the client.
    WriteFailed,
}

/// What a read handler does next.
#[derive(Debug)]
pub enum ReadStep {
    /// Write this frame to the client, then wait for the next event.
    Forward(String),
    /// Wait for the next event.
    Skip,
    /// End the handler and close the connection.
    Stop,
}

/// What a `ReadStep` is, as mathematics.
pub enum ReadStepView {
    Forward(Seq<char>),
    Skip,
    Stop,
}

impl View for ReadStep {
    type V = ReadStepView;

    open spec fn view(&self) -> ReadStepView {
        match self {
            ReadStep::Forward(frame) => ReadStepView::Forward(frame@),
            ReadStep::Skip => ReadStepView::Skip,
            ReadStep::Stop => ReadStepView::Stop,
        }
    }
}

/// What a read handler for `ident` does on `event`: it forwards the frame of
/// a message that is addressed to `ident`, passes over any other message and
/// over a lag, and stops when the bus is closed or its client can no longer
/// be written to.
pub open spec fn read_step_of(ident: Seq<char>, event: ReadEvent) -> ReadStepView {
    match event {
        ReadEvent::Arrived(message) => if forwards(ident, message@) {
            ReadStepView::Forward(message_text(message@))
        } else {
            ReadStepView::Skip
        },
        ReadEvent::Lagged(_) => ReadStepView::Skip,
        ReadEvent::Closed => ReadStepView::Stop,
        ReadEvent::WriteFailed => ReadStepView::Stop,
    }
}

/// Takes the connect value out of a decoded first frame. Anything else, a
/// request of another kind or bytes that stand for none, is a protocol
/// violation.
pub fn connect_from_first(decoded: Result<ClientRequest, RelayError>) -> (out: Result<
    Connect,
    RelayError,
>)
    ensures
        match out {
            Ok(connect) => decoded == Ok::<ClientRequest, RelayError>(
                ClientRequest::Connect(connect),
            ),
            Err(error) => error == RelayError::ProtocolViolation && !(decoded matches Ok(
                ClientRequest::Connect(_),
            )),
        },
{
    match decoded {
        Ok(ClientRequest::Connect(connect)) => Ok(connect),
        _ => Err(RelayError::ProtocolViolation),
    }
}

/// Takes the message out of a decoded later frame. A request of another kind
/// is a protocol violation; bytes that stand for no request stay malformed.
pub fn message_from_later(decoded: Result<ClientRequest, RelayError>) -> (out: Result<
    Message,
    RelayError,
>)
    ensures
        match out {
            Ok(message) => decoded == Ok::<ClientRequest, RelayError>(
                ClientRequest::Message(message),
            ),
            Err(error) => match decoded {
                Ok(request) => error == RelayError::ProtocolViolation && !(request is Message),
                Err(cause) => error == cause,
            },
        },
{
    match decoded {
        Ok(ClientRequest::Message(message)) => Ok(message),
        Ok(_) => Err(RelayError::ProtocolViolation),
        Err(cause) => Err(cause),
    }
}

/// Gives up a subscription that no connection will use.
fn discard(reader: tokio::sync::broadcast::Receiver<Message>) {
}

/// Reads what the bus answered to a routed message.
pub fn outcome_from(sent: Sent) -> (outcome: Outcome)
    ensures
        outcome == (match sent {
            Sent::Published(readers) => Outcome::Published(readers),
            Sent::Unsent(message) => Outcome::Unsent(message),
        }),
{
    match sent {
        Sent::Published(readers) => Outcome::Published(readers),
        Sent::Unsent(message) => Outcome::Unsent(message),
    }
}

/// The relay's shared state: who is reachable, what waits for whom, and the
/// bus on which messages go out.
pub struct Server {
    registry: Registry,
    bus: Bus,
}

impl View for Server {
    type V = Directory;

    closed spec fn view(&self) -> Directory {
        self.registry@
    }
}

impl Server {
    /// The server's invariant: its registry is in good order.
    pub closed spec fn wf(&self) -> bool {
        self.registry.wf()
    }

    /// The server's bus: the one channel on which every step of this server
    /// publishes. No step exchanges it for another.
    pub closed spec fn bus(&self) -> tokio::sync::broadcast::Sender<Message> {
        self.bus.channel()
    }

    /// Every message that this server has handed to its bus, in the order of
    /// handing, whether the bus took it or gave it back.
    pub closed spec fn handed(&self) -> Seq<MessageView> {
        views(self.bus.handed())
    }

    /// A server that has seen nobody yet, with a bus of its own that keeps
    /// `BACKLOG` messages, that no reader is subscribed to and that nothing
    /// was handed to.
    pub fn new() -> (server: Self)
        ensures
            server.wf(),
            server@ == Directory::empty(),
            server@.well_formed(),
            bus_backlog(server.bus()) == BACKLOG,
            server.handed() == Seq::<MessageView>::empty(),
    {
        assert(power_of_two_from(16, 1) == 16) by {
            reveal_with_fuel(power_of_two_from, 5);
        }
        Server { registry: Registry::new(), bus: Bus::open(BACKLOG) }
    }

    /// The sending half of the server's bus. A reader is subscribed through
    /// it, and then sees what the server publishes from that moment on.
    pub fn sender(&self) -> (bus: &tokio::sync::broadcast::Sender<Message>)
        ensures
            *bus == self.bus(),
    {
        self.bus.sender()
    }

    /// Whether `username` is reachable.
    pub fn is_login(&self, username: &str) -> (reachable: bool)
        ensures
            reachable == self@.reachable.contains(username@),
    {
        self.registry.is_login(username)
    }

    /// Makes `username` reachable and hands out what waited for it, oldest
    /// first; a user who was reachable already changes nothing and sets
    /// nothing free.
    pub fn login_user(&mut self, username: String) -> (released: Vec<Message>)
        requires
            old(self).wf(),
        ensures
            final(self).wf(),
            final(self)@.well_formed(),
            final(self).bus() == old(self).bus(),
            final(self).handed() == old(self).handed(),
            final(self)@ == old(self)@.login(username@),
            views(released@) == old(self)@.released(username@),
    {
        self.registry.login_user(username)
    }

    /// The acceptor's step: reads the first frame of a new connection and,
    /// where it is a connect value, logs its user in and publishes what
    /// waited for the user.
    ///
    /// `reader` is a subscription to this server's bus, made for the new
    /// connection before this call. On a connect value the user becomes
    /// reachable; a connection for reading keeps the reader and one for
    /// writing gives it up; then the messages that waited for the user go to
    /// the bus, oldest first. The admission carries the connect value, the
    /// reader if it was kept, the messages and the bus's answer to each. On
    /// any other frame the connection is refused with `ProtocolViolation`,
    /// the reader is given up, nothing is handed to the bus and the server is
    /// left as it was.
    pub fn accept(
        &mut self,
        frame: &[u8],
        reader: tokio::sync::broadcast::Receiver<Message>,
    ) -> (out: Result<Admission, RelayError>)
        requires
            old(self).wf(),
        ensures
            final(self).wf(),
            final(self)@.well_formed(),
            final(self).bus() == old(self).bus(),
            match first_frame(request_of(json_sections(frame@), json_fields(frame@))) {
                Ok(connect) => {
                    &&& out matches Ok(admission)
                    &&& admission.connect@ == connect
                    &&& admission.reader == (if connect.connect_type == ConnectType::Read {
                        Some(reader)
                    } else {
                        None
                    })
                    &&& views(admission.released@) == old(self)@.released(connect.username)
                    &&& admission.answers@.len() == admission.released@.len()
                    &&& forall|i: int|
                        0 <= i < admission.released@.len() ==> answers(
                            #[trigger] admission.answers@[i],
                            admission.released@[i],
                        )
                    &&& final(self)@ == old(self)@.login(connect.username)
                    &&& final(self).handed() == old(self).handed() + old(self)@.released(
                        connect.username,
                    )
                },
                Err(error) => {
                    &&& out matches Err(refusal)
                    &&& refusal == error
                    &&& final(self)@ == old(self)@
                    &&& final(self).handed() == old(self).handed()
                },
            },
    {
        match connect_from_first(from_slice(frame)) {
            Ok(connect) => {
                let released = self.registry.login_user(connect.username.clone());
                let reader = if connect.is_read() {
                    Some(reader)
                } else {
                    discard(reader);
                    None
                };
                let answers = self.bus.publish_all(&released);
                assert(views(old(self).bus.handed() + released@) =~= views(
                    old(self).bus.handed(),
                ) + views(released@));
                Ok(Admission { connect, reader, released, answers })
            },
            Err(error) => {
                proof {
                    self.registry.lemma_well_formed();
                }
                Err(error)
            },
        }
    }

    /// A write handler's step: takes the bytes of one read.
    ///
    /// No bytes mean that the client has closed. Otherwise the frame must be
    /// a message: it goes to the bus where its recipient is reachable, and to
    /// the end of the recipient's queue where not. Bytes that stand for no
    /// request give `MalformedPayload`, a request that is no message gives
    /// `ProtocolViolation`; either ends this connection and leaves the
    /// server as it was. Only a message to a reachable user is handed to the
    /// bus.
    pub fn handle_client_write(&mut self, frame: &[u8]) -> (out: Result<Outcome, RelayError>)
        requires
            old(self).wf(),
        ensures
            final(self).wf(),
            final(self)@.well_formed(),
            final(self).bus() == old(self).bus(),
            frame@.len() == 0 ==> (out matches Ok(Outcome::Closed)) && final(self)@ == old(self)@
                && final(self).handed() == old(self).handed(),
            frame@.len() > 0 ==> match later_frame(
                request_of(json_sections(frame@), json_fields(frame@)),
            ) {
                Ok(message) => {
                    &&& final(self)@ == old(self)@.route(message)
                    &&& final(self).handed() == (if old(self)@.publishes(message) {
                        old(self).handed().push(message)
                    } else {
                        old(self).handed()
                    })
                    &&& match out {
                        Ok(Outcome::Queued) => !old(self)@.publishes(message),
                        Ok(Outcome::Published(readers)) => old(self)@.publishes(message)
                            && readers >= 1,
                        Ok(Outcome::Unsent(back)) => old(self)@.publishes(message) && back@
                            == message,
                        _ => false,
                    }
                },
                Err(error) => {
                    &&& out matches Err(refusal)
                    &&& refusal == error
                    &&& final(self)@ == old(self)@
                    &&& final(self).handed() == old(self).handed()
                },
            },
    {
        proof {
            self.registry.lemma_well_formed();
        }
        if frame.len() == 0 {
            return Ok(Outcome::Closed);
        }
        match message_from_later(from_slice(frame)) {
            Ok(message) => match self.registry.route(message) {
                Routing::Publish(message) => {
                    let sent = self.bus.publish(message);
                    assert(views(old(self).bus.handed().push(message)) =~= views(
                        old(self).bus.handed(),
                    ).push(message@));
                    Ok(outcome_from(sent))
                },
                Routing::Queued => Ok(Outcome::Queued),
            },
            Err(error) => Err(error),
        }
    }

    /// A read handler's step: takes one message that the bus brought to the
    /// reader that serves `ident`. The message's frame is returned where the
    /// message is addressed to `ident`, and nothing where it is not.
    pub fn handle_client_read(ident: &str, message: &Message) -> (out: Option<String>)
        ensures
            match out {
                Some(frame) => forwards(ident@, message@) && frame@ == message_text(message@),
                None => !forwards(ident@, message@),
            },
    {
        if message.to == ident.to_owned() {
            Some(message_to_string(message))
        } else {
            None
        }
    }

    /// A read handler's step on any event: the frame of an arrived message
    /// is forwarded where the message is addressed to `ident` and passed
    /// over where not; a lag is passed over, so that the reader goes on with
    /// what the bus still has; the handler stops when the bus is closed and
    /// when its client could not be written to.
    pub fn read_step(ident: &str, event: &ReadEvent) -> (step: ReadStep)
        ensures
            step@ == read_step_of(ident@, *event),
    {
        match event {
            ReadEvent::Arrived(message) => match Self::handle_client_read(ident, message) {
                Some(frame) => ReadStep::Forward(frame),
                None => ReadStep::Skip,
            },
            ReadEvent::Lagged(_) => ReadStep::Skip,
            ReadEvent::Closed => ReadStep::Stop,
            ReadEvent::WriteFailed => ReadStep::Stop,
        }
    }
}

} // verus!
