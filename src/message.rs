use vstd::prelude::*;

verus! {

/// The reason carried by an `Error` envelope.
#[derive(Debug, PartialEq, Eq)]
pub struct MessageError {
    pub msg: String,
}

/// One unit of the wire protocol.
#[derive(Debug, PartialEq, Eq)]
pub enum SocketMessage {
    Message { from: String, to: String, content: String },
    SetName { name: String },
    RequestMe,
    Me { name: String },
    RequestUsers,
    Users { list: Vec<String> },
    Error { err: MessageError },
}

/// The mathematical value of an envelope: every string is its sequence of characters.
pub enum Envelope {
    Message { from: Seq<char>, to: Seq<char>, content: Seq<char> },
    SetName { name: Seq<char> },
    RequestMe,
    Me { name: Seq<char> },
    RequestUsers,
    Users { list: Seq<Seq<char>> },
    Error { msg: Seq<char> },
}

impl View for SocketMessage {
    type V = Envelope;

    open spec fn view(&self) -> Envelope {
        match self {
            SocketMessage::Message { from, to, content } => Envelope::Message {
                from: from@,
                to: to@,
                content: content@,
            },
            SocketMessage::SetName { name } => Envelope::SetName { name: name@ },
            SocketMessage::RequestMe => Envelope::RequestMe,
            SocketMessage::Me { name } => Envelope::Me { name: name@ },
            SocketMessage::RequestUsers => Envelope::RequestUsers,
            SocketMessage::Users { list } => Envelope::Users { list: list@.map_values(|s: String| s@) },
            SocketMessage::Error { err } => Envelope::Error { msg: err.msg@ },
        }
    }
}

fn owned(s: &str) -> (r: String)
    ensures
        r@ == s@,
{
    s.to_owned()
}

impl SocketMessage {
    /// A directed chat message.
    pub fn message(from: &str, to: &str, content: &str) -> (r: Self)
        ensures
            r@ == (Envelope::Message { from: from@, to: to@, content: content@ }),
    {
        SocketMessage::Message { from: owned(from), to: owned(to), content: owned(content) }
    }

    /// An error report carrying `msg`.
    pub fn error(msg: &str) -> (r: Self)
        ensures
            r@ == (Envelope::Error { msg: msg@ }),
    {
        SocketMessage::Error { err: MessageError { msg: owned(msg) } }
    }

    /// The announcement of a connection's current identity.
    pub fn me(name: &str) -> (r: Self)
        ensures
            r@ == (Envelope::Me { name: name@ }),
    {
        SocketMessage::Me { name: owned(name) }
    }
}

} // verus!
