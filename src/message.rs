//! The envelopes exchanged between clients and the relay.

use vstd::prelude::*;

verus! {

/// What a client sends to the relay.
#[derive(Debug, Clone, PartialEq, Eq)]
pub enum ClientMessage {
    /// A line for everyone.
    Broadcast { from: String, content: String },
    /// A line for one named user.
    Private { from: String, to: String, content: String },
    /// A command such as `/users` or `/history`.
    Command { from: String, command: String },
    /// The handshake: claims a name for the connection.
    Register { name: String },
}

/// What the relay sends to a client.
#[allow(inconsistent_fields)]
#[derive(Debug, Clone, PartialEq, Eq)]
pub enum ServerMessage {
    BroadcastMessage { from: String, content: String },
    PrivateMessage { from: String, to: String, content: String },
    UserList { content: Vec<String>, to: String },
    Error { content: String, to: String },
    System { content: String },
    History { content: String, to: String },
    /// The relay is shutting down.
    Exit,
}

/// One envelope on the wire, in either direction.
#[derive(Debug, Clone, PartialEq, Eq)]
pub enum Message {
    Clientmsg(ClientMessage),
    Servermsg(ServerMessage),
}

/// A server reply with its text as character sequences.
#[allow(inconsistent_fields)]
pub enum ReplyView {
    BroadcastMessage { from: Seq<char>, content: Seq<char> },
    PrivateMessage { from: Seq<char>, to: Seq<char>, content: Seq<char> },
    UserList { content: Seq<Seq<char>>, to: Seq<char> },
    Error { content: Seq<char>, to: Seq<char> },
    System { content: Seq<char> },
    History { content: Seq<char>, to: Seq<char> },
    Exit,
}

/// The characters of each string, in order.
pub open spec fn strings_view(v: Seq<String>) -> Seq<Seq<char>> {
    v.map_values(|s: String| s@)
}

impl View for ServerMessage {
    type V = ReplyView;

    open spec fn view(&self) -> ReplyView {
        match self {
            ServerMessage::BroadcastMessage { from, content } => ReplyView::BroadcastMessage {
                from: from@,
                content: content@,
            },
            ServerMessage::PrivateMessage { from, to, content } => ReplyView::PrivateMessage {
                from: from@,
                to: to@,
                content: content@,
            },
            ServerMessage::UserList { content, to } => ReplyView::UserList {
                content: strings_view(content@),
                to: to@,
            },
            ServerMessage::Error { content, to } => ReplyView::Error { content: content@, to: to@ },
            ServerMessage::System { content } => ReplyView::System { content: content@ },
            ServerMessage::History { content, to } => ReplyView::History {
                content: content@,
                to: to@,
            },
            ServerMessage::Exit => ReplyView::Exit,
        }
    }
}

} // verus!

verus! {

/// A client intent with its text as character sequences.
pub enum IntentView {
    Broadcast { from: Seq<char>, content: Seq<char> },
    Private { from: Seq<char>, to: Seq<char>, content: Seq<char> },
    Command { from: Seq<char>, command: Seq<char> },
    Register { name: Seq<char> },
}

impl View for ClientMessage {
    type V = IntentView;

    open spec fn view(&self) -> IntentView {
        match self {
            ClientMessage::Broadcast { from, content } => IntentView::Broadcast {
                from: from@,
                content: content@,
            },
            ClientMessage::Private { from, to, content } => IntentView::Private {
                from: from@,
                to: to@,
                content: content@,
            },
            ClientMessage::Command { from, command } => IntentView::Command {
                from: from@,
                command: command@,
            },
            ClientMessage::Register { name } => IntentView::Register { name: name@ },
        }
    }
}

/// A copy of each string, in order.
pub fn copy_strings(v: &Vec<String>) -> (r: Vec<String>)
    ensures
        r@ == v@,
{
    let mut r: Vec<String> = Vec::new();
    let mut i: usize = 0;
    while i < v.len()
        invariant
            i <= v@.len(),
            r@ == v@.subrange(0, i as int),
        decreases v@.len() - i,
    {
        r.push(v[i].clone());
        i = i + 1;
        assert(r@ =~= v@.subrange(0, i as int));
    }
    assert(v@.subrange(0, i as int) =~= v@);
    r
}

impl ServerMessage {
    /// A copy of this reply.
    pub fn copy(&self) -> (r: ServerMessage)
        ensures
            r@ == self@,
    {
        match self {
            ServerMessage::BroadcastMessage { from, content } => ServerMessage::BroadcastMessage {
                from: from.clone(),
                content: content.clone(),
            },
            ServerMessage::PrivateMessage { from, to, content } => ServerMessage::PrivateMessage {
                from: from.clone(),
                to: to.clone(),
                content: content.clone(),
            },
            ServerMessage::UserList { content, to } => ServerMessage::UserList {
                content: copy_strings(content),
                to: to.clone(),
            },
            ServerMessage::Error { content, to } => ServerMessage::Error {
                content: content.clone(),
                to: to.clone(),
            },
            ServerMessage::System { content } => ServerMessage::System { content: content.clone() },
            ServerMessage::History { content, to } => ServerMessage::History {
                content: content.clone(),
                to: to.clone(),
            },
            ServerMessage::Exit => ServerMessage::Exit,
        }
    }
}

} // verus!
