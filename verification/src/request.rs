//! The values that travel between a client and the relay.

use vstd::prelude::*;

verus! {

/// The direction of a connection, named from the client's side: on a `Read`
/// connection the client reads what the relay delivers, on a `Write`
/// connection the client writes what it wants delivered.
#[derive(Debug, Clone, Copy, PartialEq, Eq, Structural)]
pub enum ConnectType {
    Read,
    Write,
}

impl ConnectType {
    /// The word that stands for this direction, on the wire and on the screen.
    pub open spec fn word(self) -> Seq<char> {
        match self {
            ConnectType::Read => "Read"@,
            ConnectType::Write => "Write"@,
        }
    }

    /// The direction's word: `Read` or `Write`.
    pub fn to_string(&self) -> (text: String)
        ensures
            text@ == self.word(),
    {
        match self {
            ConnectType::Read => "Read".to_owned(),
            ConnectType::Write => "Write".to_owned(),
        }
    }
}

/// What a `Message` is, as mathematics: three texts.
pub struct MessageView {
    pub from: Seq<char>,
    pub to: Seq<char>,
    pub msg: Seq<char>,
}

/// A short text from one user to another. It carries no identifier and no
/// time; once made it is only copied and moved.
#[derive(Debug)]
pub struct Message {
    pub from: String,
    pub to: String,
    pub msg: String,
}

impl View for Message {
    type V = MessageView;

    open spec fn view(&self) -> MessageView {
        MessageView { from: self.from@, to: self.to@, msg: self.msg@ }
    }
}

impl Clone for Message {
    fn clone(&self) -> (copy: Self)
        ensures
            copy == *self,
    {
        Message { from: self.from.clone(), to: self.to.clone(), msg: self.msg.clone() }
    }
}

impl Message {
    /// A message from `from` to `to` with the text `msg`.
    pub fn new(from: &str, to: &str, msg: &str) -> (message: Self)
        ensures
            message@ == (MessageView { from: from@, to: to@, msg: msg@ }),
    {
        Message { from: from.to_owned(), to: to.to_owned(), msg: msg.to_owned() }
    }

    /// The five lines in which a message is shown to a person.
    pub open spec fn shown(message: MessageView) -> Seq<char> {
        "===============start===============\nfrom : "@ + message.from + "\nto : "@ + message.to
            + "\nmessage content : "@ + message.msg + "\n================end================"@
    }

    /// The message as text for a person to read: a frame line, the sender,
    /// the recipient, the content, and a closing frame line.
    pub fn to_string(&self) -> (text: String)
        ensures
            text@ == Self::shown(self@),
    {
        let mut text = "===============start===============\nfrom : ".to_owned();
        text.append(self.from.as_str());
        text.append("\nto : ");
        text.append(self.to.as_str());
        text.append("\nmessage content : ");
        text.append(self.msg.as_str());
        text.append("\n================end================");
        text
    }
}

/// What a `Connect` is, as mathematics.
pub struct ConnectView {
    pub connect_type: ConnectType,
    pub username: Seq<char>,
}

/// The first value on every connection: it says for whom the connection is
/// and in which direction it will be used, for as long as it lasts.
#[derive(Debug)]
pub struct Connect {
    pub connect_type: ConnectType,
    pub username: String,
}

impl View for Connect {
    type V = ConnectView;

    open spec fn view(&self) -> ConnectView {
        ConnectView { connect_type: self.connect_type, username: self.username@ }
    }
}

impl Clone for Connect {
    fn clone(&self) -> (copy: Self)
        ensures
            copy == *self,
    {
        Connect { connect_type: self.connect_type, username: self.username.clone() }
    }
}

impl Connect {
    /// A connect value for `username` in the direction `connect_type`.
    pub fn new(connect_type: ConnectType, username: &str) -> (connect: Self)
        ensures
            connect@ == (ConnectView { connect_type, username: username@ }),
    {
        Connect { connect_type, username: username.to_owned() }
    }

    /// Whether the client will read on this connection.
    pub fn is_read(&self) -> (read: bool)
        ensures
            read == (self.connect_type == ConnectType::Read),
    {
        self.connect_type == ConnectType::Read
    }

    /// Whether the client will write on this connection.
    pub fn is_write(&self) -> (write: bool)
        ensures
            write == (self.connect_type == ConnectType::Write),
    {
        !self.is_read()
    }
}

/// What a `ClientRequest` is, as mathematics.
pub enum RequestView {
    Connect(ConnectView),
    Message(MessageView),
    Close(Seq<char>),
}

/// Everything a client may send to the relay. `Close` has a place on the wire
/// and no rule of the relay acts on it.
#[derive(Debug)]
pub enum ClientRequest {
    Connect(Connect),
    Message(Message),
    Close(String),
}

impl View for ClientRequest {
    type V = RequestView;

    open spec fn view(&self) -> RequestView {
        match self {
            ClientRequest::Connect(connect) => RequestView::Connect(connect@),
            ClientRequest::Message(message) => RequestView::Message(message@),
            ClientRequest::Close(username) => RequestView::Close(username@),
        }
    }
}

impl Clone for ClientRequest {
    fn clone(&self) -> (copy: Self)
        ensures
            copy == *self,
    {
        match self {
            ClientRequest::Connect(connect) => ClientRequest::Connect(connect.clone()),
            ClientRequest::Message(message) => ClientRequest::Message(message.clone()),
            ClientRequest::Close(username) => ClientRequest::Close(username.clone()),
        }
    }
}

impl ClientRequest {
    /// The message that the request carries, if it carries one.
    pub fn message(&self) -> (carried: Option<&Message>)
        ensures
            carried == (match *self {
                ClientRequest::Message(message) => Some(&message),
                _ => None,
            }),
    {
        match self {
            ClientRequest::Message(message) => Some(message),
            _ => None,
        }
    }
}

} // verus!
