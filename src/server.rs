use vstd::prelude::*;

use crate::codec::{decode, decoded, enc, encode, malformed};
use crate::message::{Envelope, SocketMessage};
use crate::registry::{
    assigned_id, has_id, identities, lookup, registered, renamed, deregistered, ConnectedUsers,
    Entry,
};

verus! {

/// What a session asks the transport to do after an inbound frame.
pub enum Action {
    /// Nothing is sent.
    Nothing,
    /// The frame goes back to the connection that sent the inbound frame.
    Reply(String),
    /// The frame goes to the connection with id `to`.
    Deliver { to: u128, frame: String },
}

/// The mathematical value of an action.
pub enum Effect {
    Nothing,
    Reply(Seq<char>),
    Deliver(u128, Seq<char>),
}

impl View for Action {
    type V = Effect;

    open spec fn view(&self) -> Effect {
        match self {
            Action::Nothing => Effect::Nothing,
            Action::Reply(f) => Effect::Reply(f@),
            Action::Deliver { to, frame } => Effect::Deliver(*to, frame@),
        }
    }
}

/// The identity every connection starts with.
pub open spec fn placeholder() -> Seq<char> {
    "anon"@
}

/// The reason given when a directed message names no live identity.
pub open spec fn not_found() -> Seq<char> {
    "cannot find user"@
}

/// One step of a session with id `id` and identity `name` over the table `s`, on the
/// envelope `m`: the session's next identity, the next table, and what is sent.
pub open spec fn step<C>(id: u128, name: Seq<char>, s: Seq<Entry<C>>, m: Envelope) -> (
    Seq<char>,
    Seq<Entry<C>>,
    Effect,
) {
    match m {
        Envelope::Message { from, to, content } => match lookup(s, to) {
            Some(e) => (
                name,
                s,
                Effect::Deliver(e.0, enc(Envelope::Message { from: name, to, content })),
            ),
            None => (name, s, Effect::Reply(enc(Envelope::Error { msg: not_found() }))),
        },
        Envelope::SetName { name: n } => (n, renamed(s, id, n), Effect::Nothing),
        Envelope::RequestMe => (name, s, Effect::Reply(enc(Envelope::Me { name }))),
        Envelope::RequestUsers => (
            name,
            s,
            Effect::Reply(enc(Envelope::Users { list: identities(s) })),
        ),
        _ => (name, s, Effect::Nothing),
    }
}

/// A directed message is delivered attributed to the sending session's own identity,
/// whatever sender the message itself names.
pub proof fn lemma_sender_is_stamped<C>(
    id: u128,
    name: Seq<char>,
    s: Seq<Entry<C>>,
    from: Seq<char>,
    to: Seq<char>,
    content: Seq<char>,
)
    requires
        lookup(s, to) is Some,
    ensures
        step(id, name, s, Envelope::Message { from, to, content }).2 == Effect::Deliver(
            lookup(s, to)->Some_0.0,
            enc(Envelope::Message { from: name, to, content }),
        ),
        step(id, name, s, Envelope::Message { from, to, content }) == step(
            id,
            name,
            s,
            Envelope::Message { from: name, to, content },
        ),
{
}

/// The per-connection state: the connection's id and its current identity.
pub struct ClientHandler {
    pub id: u128,
    pub username: String,
}

impl ClientHandler {
    /// The frame announcing the connection's identity, sent as soon as it opens.
    pub fn on_open(&self) -> (r: String)
        ensures
            r@ == enc(Envelope::Me { name: self.username@ }),
    {
        encode(&SocketMessage::me(self.username.as_str()))
    }

    /// Interprets one decoded envelope.
    pub fn on_message<C>(&mut self, users: &mut ConnectedUsers<C>, msg: SocketMessage) -> (r:
        Action)
        requires
            old(users).wf(),
        ensures
            final(users).wf(),
            final(self).id == old(self).id,
            (final(self).username@, final(users)@, r@) == step(
                old(self).id,
                old(self).username@,
                old(users)@,
                msg@,
            ),
    {
        match msg {
            SocketMessage::Message { from, to, content } => {
                match users.id_by_identity(to.as_str()) {
                    Some(peer) => {
                        let out = SocketMessage::message(
                            self.username.as_str(),
                            to.as_str(),
                            content.as_str(),
                        );
                        Action::Deliver { to: peer, frame: encode(&out) }
                    },
                    None => Action::Reply(encode(&SocketMessage::error("cannot find user"))),
                }
            },
            SocketMessage::SetName { name } => {
                // A live session's id is always registered; were it not, the table stays as it is.
                let _registered = users.rename(self.id, name.clone());
                self.username = name;
                Action::Nothing
            },
            SocketMessage::RequestMe => Action::Reply(
                encode(&SocketMessage::me(self.username.as_str())),
            ),
            SocketMessage::RequestUsers => {
                let list = users.snapshot_identities();
                Action::Reply(encode(&SocketMessage::Users { list }))
            },
            _ => Action::Nothing,
        }
    }

    /// Interprets one inbound frame; a frame that decodes to no envelope is answered with
    /// an error and changes nothing.
    pub fn on_frame<C>(&mut self, users: &mut ConnectedUsers<C>, frame: &str) -> (r: Action)
        requires
            old(users).wf(),
        ensures
            final(users).wf(),
            final(self).id == old(self).id,
            decoded(frame@) matches Some(v) ==> (final(self).username@, final(users)@, r@)
                == step(old(self).id, old(self).username@, old(users)@, v),
            decoded(frame@) is None ==> final(self).username@ == old(self).username@
                && final(users)@ == old(users)@ && r@ == Effect::Reply(
                enc(Envelope::Error { msg: malformed() }),
            ),
    {
        match decode(frame) {
            Ok(m) => self.on_message(users, m),
            Err(e) => {
                let reply = SocketMessage::Error { err: e };
                Action::Reply(encode(&reply))
            },
        }
    }
}

/// Relies on uuid::Uuid::new_v4 and Uuid::as_u128: a fresh random id, as an integer.
#[verifier::external_body]
fn new_connection_id() -> (r: u128) {
    uuid::Uuid::new_v4().as_u128()
}

/// The dispatcher: the single table shared by every session.
pub struct WsServer<C> {
    pub connected_users: ConnectedUsers<C>,
}

impl<C> WsServer<C> {
    /// A dispatcher with no connection.
    pub fn new() -> (r: Self)
        ensures
            r.connected_users.wf(),
            r.connected_users@ == Seq::<Entry<C>>::empty(),
    {
        WsServer { connected_users: ConnectedUsers::new() }
    }

    /// Registers a new connection with the placeholder identity, under `id` or, where `id`
    /// is already live, under the least free id.
    pub fn open_connection(&mut self, id: u128, sender: C) -> (r: ClientHandler)
        requires
            old(self).connected_users.wf(),
        ensures
            final(self).connected_users.wf(),
            final(self).connected_users@ == registered(
                old(self).connected_users@,
                id,
                placeholder(),
                sender,
            ),
            r.id == assigned_id(old(self).connected_users@, id),
            !has_id(old(self).connected_users@, r.id),
            r.username@ == placeholder(),
    {
        let name = "anon".to_owned();
        let rid = self.connected_users.register(id, name, sender);
        ClientHandler { id: rid, username: "anon".to_owned() }
    }

    /// Registers a new connection with the placeholder identity under a fresh random id
    /// (the least free id, in the unlikely case that the id drawn is already live).
    pub fn connection_made(&mut self, sender: C) -> (r: ClientHandler)
        requires
            old(self).connected_users.wf(),
        ensures
            final(self).connected_users.wf(),
            !has_id(old(self).connected_users@, r.id),
            r.username@ == placeholder(),
            final(self).connected_users@ == old(self).connected_users@.push(
                (r.id, placeholder(), sender),
            ),
            exists|drawn: u128|
                final(self).connected_users@ == registered(
                    old(self).connected_users@,
                    drawn,
                    placeholder(),
                    sender,
                ) && r.id == assigned_id(old(self).connected_users@, drawn),
    {
        let id = new_connection_id();
        self.open_connection(id, sender)
    }

    /// Removes a closed connection from the table.
    pub fn connection_closed(&mut self, handler: &ClientHandler)
        requires
            old(self).connected_users.wf(),
        ensures
            final(self).connected_users.wf(),
            final(self).connected_users@ == deregistered(old(self).connected_users@, handler.id),
    {
        self.connected_users.deregister(handler.id);
    }
}

impl<C> Default for WsServer<C> {
    fn default() -> (r: Self)
        ensures
            r.connected_users.wf(),
            r.connected_users@ == Seq::<Entry<C>>::empty(),
    {
        WsServer::new()
    }
}

} // verus!
