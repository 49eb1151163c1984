//! The client's side: the frames it sends, the messages it collects, and
//! the commands it takes from its user.
//!
//! A client keeps two connections, one on which it writes and one on which
//! the relay's messages arrive. What arrives is collected until the user asks
//! for it. The caller owns the sockets and the terminal and runs the loops;
//! every step of them is one call here.

use vstd::prelude::*;
use crate::codec::{connect_text, json_fields, message_from_slice, message_of, message_text, to_string};
use crate::error::RelayError;
use crate::registry::views;
use crate::request::{ClientRequest, Connect, ConnectType, ConnectView, Message, MessageView};

verus! {

/// What the user asks of the client with one line.
#[derive(Debug, Clone, Copy, PartialEq, Eq, Structural)]
pub enum Command {
    /// `r`: show what has arrived.
    Read,
    /// `w`: write a message.
    Write,
    /// Any other line.
    Undefined,
}

/// The command that a line stands for.
pub open spec fn command_of(line: Seq<char>) -> Command {
    if line == "r"@ {
        Command::Read
    } else if line == "w"@ {
        Command::Write
    } else {
        Command::Undefined
    }
}

/// Reads a line, already without its end, as a command.
pub fn command_from(line: &str) -> (command: Command)
    ensures
        command == command_of(line@),
{
    let line = line.to_owned();
    if line == "r".to_owned() {
        Command::Read
    } else if line == "w".to_owned() {
        Command::Write
    } else {
        Command::Undefined
    }
}

/// A line as the terminal hands it over, without its last character, which
/// is the line's end.
pub fn strip_line_end(line: &str) -> (stripped: String)
    requires
        line@.len() > 0,
    ensures
        stripped@ == line@.drop_last(),
{
    let length = line.unicode_len();
    line.substring_char(0, length - 1).to_owned()
}

/// What a client is, as mathematics: its name and the messages that have
/// arrived and were not shown yet, oldest first.
pub struct ClientView {
    pub username: Seq<char>,
    pub received: Seq<MessageView>,
}

/// One user's end of the relay.
pub struct Client {
    username: String,
    msg_list: Vec<Message>,
}

impl View for Client {
    type V = ClientView;

    closed spec fn view(&self) -> ClientView {
        ClientView { username: self.username@, received: views(self.msg_list@) }
    }
}

impl Client {
    /// A client for `username` to which nothing has arrived.
    pub fn new(username: &str) -> (client: Self)
        ensures
            client@ == (ClientView { username: username@, received: Seq::empty() }),
    {
        let client = Client { username: username.to_owned(), msg_list: Vec::new() };
        assert(client@.received =~= Seq::empty());
        client
    }

    /// The user's name.
    pub fn username(&self) -> (name: &String)
        ensures
            name@ == self@.username,
    {
        &self.username
    }

    /// The first frame of the connection on which the client reads.
    pub fn read_connect(&self) -> (frame: String)
        ensures
            frame@ == "{\"Connect\":"@ + connect_text(
                ConnectView { connect_type: ConnectType::Read, username: self@.username },
            ) + "}"@,
    {
        to_string(
            &ClientRequest::Connect(Connect::new(ConnectType::Read, self.username.as_str())),
        )
    }

    /// The first frame of the connection on which the client writes.
    pub fn write_connect(&self) -> (frame: String)
        ensures
            frame@ == "{\"Connect\":"@ + connect_text(
                ConnectView { connect_type: ConnectType::Write, username: self@.username },
            ) + "}"@,
    {
        to_string(
            &ClientRequest::Connect(Connect::new(ConnectType::Write, self.username.as_str())),
        )
    }

    /// The frame that sends the text `msg` from this client's user to `to`.
    pub fn compose(&self, to: &str, msg: &str) -> (frame: String)
        ensures
            frame@ == "{\"Message\":"@ + message_text(
                MessageView { from: self@.username, to: to@, msg: msg@ },
            ) + "}"@,
    {
        to_string(&ClientRequest::Message(Message::new(self.username.as_str(), to, msg)))
    }

    /// Takes in one frame from the relay. A frame that stands for a message
    /// adds the message behind those that have arrived; any other frame is
    /// `MalformedPayload` and changes nothing.
    pub fn receive(&mut self, frame: &[u8]) -> (out: Result<(), RelayError>)
        ensures
            final(self)@.username == old(self)@.username,
            match out {
                Ok(_) => json_fields(frame@) matches Some(fields) && message_of(fields) matches Some(
                    message,
                ) && final(self)@.received == old(self)@.received.push(message),
                Err(error) => error == RelayError::MalformedPayload && final(self)@ == old(
                    self,
                )@ && !(json_fields(frame@) matches Some(fields) && message_of(fields) is Some),
            },
    {
        match message_from_slice(frame) {
            Ok(message) => {
                self.msg_list.push(message);
                Ok(())
            },
            Err(error) => Err(error),
        }
    }

    /// Hands out what has arrived, newest message first, and keeps none of
    /// it.
    pub fn take_received(&mut self) -> (shown: Vec<Message>)
        ensures
            final(self)@.username == old(self)@.username,
            final(self)@.received == Seq::<MessageView>::empty(),
            views(shown@) == old(self)@.received.reverse(),
    {
        let mut shown: Vec<Message> = Vec::new();
        let ghost all = self.msg_list@;
        while self.msg_list.len() > 0
            invariant
                self.username == old(self).username,
                self.msg_list@.len() + shown@.len() == all.len(),
                self.msg_list@ == all.take(self.msg_list@.len() as int),
                forall|k: int|
                    0 <= k < shown@.len() ==> (#[trigger] shown@[k]) == all[all.len() - 1 - k],
            decreases self.msg_list.len(),
        {
            if let Some(newest) = self.msg_list.pop() {
                shown.push(newest);
            }
        }
        shown
    }
}

} // verus!
