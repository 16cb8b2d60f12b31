//! The routing rules: what each client intent does to the shared state, and
//! which replies go to which connection.

use crate::directory::{dir_handles, dir_insert, dir_remove, DirView, Directory};
use crate::history::{
    history_text_lines, log_append, logs_append, logs_wf, private_of, History, LogsView,
    PrivateLogs,
};
use crate::keyed::{key_value, keys_of, keys_unique};
use crate::message::{strings_view, ClientMessage, IntentView, ReplyView, ServerMessage};
use vstd::prelude::*;
use vstd::string::*;

verus! {

/// One reply bound for the connection with the given handle.
pub struct Delivery {
    pub handle: u64,
    pub msg: ServerMessage,
}

/// Deliveries as (handle, reply) pairs.
pub open spec fn deliveries_view(v: Seq<Delivery>) -> Seq<(u64, ReplyView)> {
    v.map_values(|d: Delivery| (d.handle, d.msg@))
}

/// The shared state: directory, global log and private logs.
pub struct StateView {
    pub clients: DirView,
    pub global: Seq<Seq<char>>,
    pub privates: LogsView,
}

/// The same reply to each handle, in order.
pub open spec fn fan_out(handles: Seq<u64>, m: ReplyView) -> Seq<(u64, ReplyView)> {
    handles.map_values(|h: u64| (h, m))
}

/// The reply `m` to the connection registered as `name`; nothing when no
/// connection is.
pub open spec fn reply_to(d: DirView, name: Seq<char>, m: ReplyView) -> Seq<(u64, ReplyView)> {
    match key_value(d, name) {
        Some(h) => seq![(h, m)],
        None => Seq::empty(),
    }
}

/// The error sent back when a private message finds no recipient.
pub open spec fn offline_error() -> Seq<char> {
    "Private object is not online or the name is incorrect "@
}

/// The notice sent when nobody is registered, and the error for an unknown
/// command.
pub open spec fn no_user_online() -> Seq<char> {
    "No User Online"@
}

/// The line that journals a command in the issuer's private log.
pub open spec fn issued_line(command: Seq<char>) -> Seq<char> {
    "You issued: "@ + command
}

/// The text of a `/history` reply.
pub open spec fn history_text(global: Seq<Seq<char>>, private: Seq<Seq<char>>) -> Seq<char> {
    history_text_lines(
        seq!["=== Broadcast History ==="@] + global + seq!["=== Your Private History ==="@]
            + private,
    )
}

/// Registering `name` for `handle`: the name is bound (replacing an earlier
/// binding) and everyone registered, the newcomer included, hears of it.
pub open spec fn spec_register(s: StateView, name: Seq<char>, handle: u64) -> (
    StateView,
    Seq<(u64, ReplyView)>,
) {
    let clients = dir_insert(s.clients, name, handle);
    (
        StateView { clients, ..s },
        fan_out(dir_handles(clients), ReplyView::System { content: name + " join the chat"@ }),
    )
}

/// A broadcast: journaled in the global log, then sent to every handle.
pub open spec fn spec_broadcast(s: StateView, from: Seq<char>, content: Seq<char>) -> (
    StateView,
    Seq<(u64, ReplyView)>,
) {
    (
        StateView { global: log_append(s.global, from + " broadcast: "@ + content), ..s },
        fan_out(dir_handles(s.clients), ReplyView::BroadcastMessage { from, content }),
    )
}

/// A private message: journaled for sender and recipient alike, then sent
/// to the recipient, or an error goes back to the sender.
pub open spec fn spec_dispatch(
    s: StateView,
    from: Seq<char>,
    to: Seq<char>,
    content: Seq<char>,
) -> (StateView, Seq<(u64, ReplyView)>) {
    let privates = logs_append(
        logs_append(s.privates, from, "You → "@ + to + ": "@ + content),
        to,
        from + " → You: "@ + content,
    );
    let out = match key_value(s.clients, to) {
        Some(h) => seq![(h, ReplyView::PrivateMessage { from, to, content })],
        None => reply_to(s.clients, from, ReplyView::Error { content: offline_error(), to: from }),
    };
    (StateView { privates, ..s }, out)
}

/// A command: `/users` and `/history` are journaled and answered; anything
/// else is answered with an error.
pub open spec fn spec_command(s: StateView, from: Seq<char>, command: Seq<char>) -> (
    StateView,
    Seq<(u64, ReplyView)>,
) {
    if command == "/users"@ {
        let privates = logs_append(s.privates, from, issued_line(command));
        let m = if s.clients.len() == 0 {
            ReplyView::System { content: no_user_online() }
        } else {
            ReplyView::UserList { content: keys_of(s.clients), to: from }
        };
        (StateView { privates, ..s }, reply_to(s.clients, from, m))
    } else if command == "/history"@ {
        let privates = logs_append(s.privates, from, issued_line(command));
        let text = history_text(s.global, private_of(privates, from));
        (
            StateView { privates, ..s },
            reply_to(s.clients, from, ReplyView::History { content: text, to: from }),
        )
    } else {
        (s, reply_to(s.clients, from, ReplyView::Error { content: no_user_online(), to: from }))
    }
}

/// A registered connection's intent. A second `Register` changes nothing.
pub open spec fn spec_intent(s: StateView, msg: IntentView) -> (StateView, Seq<(u64, ReplyView)>) {
    match msg {
        IntentView::Broadcast { from, content } => spec_broadcast(s, from, content),
        IntentView::Private { from, to, content } => spec_dispatch(s, from, to, content),
        IntentView::Command { from, command } => spec_command(s, from, command),
        IntentView::Register { .. } => (s, Seq::empty()),
    }
}

/// A connection registered as `name` goes away: the binding is dropped and
/// those left hear of it.
pub open spec fn spec_leave(s: StateView, name: Seq<char>) -> (StateView, Seq<(u64, ReplyView)>) {
    let clients = dir_remove(s.clients, name);
    (
        StateView { clients, ..s },
        fan_out(dir_handles(clients), ReplyView::System { content: name + " leave the chat"@ }),
    )
}

/// Shutdown: every registered handle is told to exit, then the directory is
/// emptied.
pub open spec fn spec_shutdown(s: StateView) -> (StateView, Seq<(u64, ReplyView)>) {
    (
        StateView { clients: Seq::empty(), ..s },
        fan_out(dir_handles(s.clients), ReplyView::Exit),
    )
}

/// The state that all connections share.
pub struct ServerState {
    clients: Directory,
    broadcast_history: History,
    private_history: PrivateLogs,
}

impl View for ServerState {
    type V = StateView;

    closed spec fn view(&self) -> StateView {
        StateView {
            clients: self.clients@,
            global: self.broadcast_history@,
            privates: self.private_history@,
        }
    }
}

impl Default for ServerState {
    fn default() -> (r: ServerState)
        ensures
            r.wf(),
            r@.clients.len() == 0,
            r@.global.len() == 0,
            r@.privates.len() == 0,
    {
        ServerState::new()
    }
}

/// Sends `msg` to each of `handles`, in order.
fn fan_out_to(handles: &Vec<u64>, msg: &ServerMessage) -> (r: Vec<Delivery>)
    ensures
        deliveries_view(r@) == fan_out(handles@, msg@),
{
    let mut r: Vec<Delivery> = Vec::new();
    let mut i: usize = 0;
    while i < handles.len()
        invariant
            i <= handles@.len(),
            r@.len() == i,
            forall|j: int| 0 <= j < i ==> r@[j].handle == handles@[j] && r@[j].msg@ == msg@,
        decreases handles@.len() - i,
    {
        r.push(Delivery { handle: handles[i], msg: msg.copy() });
        i = i + 1;
    }
    assert(deliveries_view(r@) =~= fan_out(handles@, msg@));
    r
}

/// Joins lines with a newline between each two.
pub fn join_lines(lines: &Vec<String>) -> (r: String)
    ensures
        r@ == history_text_lines(strings_view(lines@)),
{
    let ghost sv = strings_view(lines@);
    if lines.len() == 0 {
        return String::new();
    }
    let mut r = lines[0].clone();
    assert(sv.subrange(0, 1).drop_last() =~= Seq::<Seq<char>>::empty());
    let mut i: usize = 1;
    while i < lines.len()
        invariant
            1 <= i <= lines@.len(),
            sv == strings_view(lines@),
            r@ == history_text_lines(sv.subrange(0, i as int)),
        decreases lines@.len() - i,
    {
        r = r.concat("\n");
        r = r.concat(lines[i].as_str());
        assert(sv.subrange(0, i as int + 1).drop_last() =~= sv.subrange(0, i as int));
        i = i + 1;
    }
    assert(sv.subrange(0, i as int) =~= sv);
    r
}

impl ServerState {
    pub open spec fn wf(&self) -> bool {
        &&& keys_unique(self@.clients)
        &&& self@.global.len() <= crate::history::MAX_HISTORY_SIZE
        &&& logs_wf(self@.privates)
    }

    /// No one registered, no history.
    pub fn new() -> (r: ServerState)
        ensures
            r.wf(),
            r@.clients.len() == 0,
            r@.global.len() == 0,
            r@.privates.len() == 0,
    {
        ServerState {
            clients: Directory::new(),
            broadcast_history: History::new(),
            private_history: PrivateLogs::new(),
        }
    }

    /// The handle registered as `name`, if any.
    pub fn lookup(&self, name: &String) -> (r: Option<u64>)
        requires
            self.wf(),
        ensures
            r == key_value(self@.clients, name@),
    {
        self.clients.lookup(name)
    }

    /// The registered names, in directory order.
    pub fn user_names(&self) -> (r: Vec<String>)
        ensures
            strings_view(r@) == keys_of(self@.clients),
    {
        self.clients.names()
    }

    /// The global log, oldest first.
    pub fn broadcast_lines(&self) -> (r: Vec<String>)
        ensures
            strings_view(r@) == self@.global,
    {
        self.broadcast_history.to_vec()
    }

    /// The private log of `name`, oldest first.
    pub fn private_lines(&self, name: &String) -> (r: Vec<String>)
        requires
            self.wf(),
        ensures
            strings_view(r@) == private_of(self@.privates, name@),
    {
        self.private_history.lines_of(name)
    }

    fn reply_to(&self, name: &String, msg: ServerMessage) -> (r: Vec<Delivery>)
        requires
            self.wf(),
        ensures
            deliveries_view(r@) == reply_to(self@.clients, name@, msg@),
    {
        match self.clients.lookup(name) {
            Some(h) => {
                let r = vec![Delivery { handle: h, msg }];
                assert(deliveries_view(r@) =~= reply_to(self@.clients, name@, msg@));
                r
            },
            None => {
                let r: Vec<Delivery> = Vec::new();
                assert(deliveries_view(r@) =~= reply_to(self@.clients, name@, msg@));
                r
            },
        }
    }

    /// Binds `name` to `handle` and announces the newcomer to everyone.
    pub fn register(&mut self, name: &String, handle: u64) -> (r: Vec<Delivery>)
        requires
            old(self).wf(),
        ensures
            final(self).wf(),
            (final(self)@, deliveries_view(r@)) == spec_register(old(self)@, name@, handle),
    {
        self.clients.insert(name.clone(), handle);
        let content = name.clone().concat(" join the chat");
        let handles = self.clients.handles();
        let r = fan_out_to(&handles, &ServerMessage::System { content });
        assert(self@ == spec_register(old(self)@, name@, handle).0);
        r
    }

    /// Journals a broadcast line and sends it to every registered handle.
    pub fn broadcast(&mut self, from: &String, content: &String) -> (r: Vec<Delivery>)
        requires
            old(self).wf(),
        ensures
            final(self).wf(),
            (final(self)@, deliveries_view(r@)) == spec_broadcast(old(self)@, from@, content@),
    {
        let line = from.clone().concat(" broadcast: ").concat(content.as_str());
        self.broadcast_history.push(line);
        let handles = self.clients.handles();
        let msg = ServerMessage::BroadcastMessage { from: from.clone(), content: content.clone() };
        let r = fan_out_to(&handles, &msg);
        assert(self@ == spec_broadcast(old(self)@, from@, content@).0);
        r
    }

    /// Journals a private message for both parties and routes it to the
    /// recipient, or routes an error back to the sender.
    pub fn dispatch(&mut self, from: &String, to: &String, content: &String) -> (r: Vec<
        Delivery,
    >)
        requires
            old(self).wf(),
        ensures
            final(self).wf(),
            (final(self)@, deliveries_view(r@)) == spec_dispatch(
                old(self)@,
                from@,
                to@,
                content@,
            ),
    {
        let sent = String::from_str("You → ").concat(to.as_str()).concat(": ").concat(
            content.as_str(),
        );
        proof {
            crate::history::lemma_logs_append(self@.privates, from@, sent@, from@);
        }
        self.private_history.append(from, sent);
        let received = from.clone().concat(" → You: ").concat(content.as_str());
        proof {
            crate::history::lemma_logs_append(self@.privates, to@, received@, to@);
        }
        self.private_history.append(to, received);
        let r = match self.clients.lookup(to) {
            Some(h) => {
                let msg = ServerMessage::PrivateMessage {
                    from: from.clone(),
                    to: to.clone(),
                    content: content.clone(),
                };
                let r = vec![Delivery { handle: h, msg }];
                assert(deliveries_view(r@) =~= spec_dispatch(old(self)@, from@, to@, content@).1);
                r
            },
            None => {
                let err = String::from_str("Private object is not online or the name is incorrect ");
                self.reply_to(from, ServerMessage::Error { content: err, to: from.clone() })
            },
        };
        assert(self@ == spec_dispatch(old(self)@, from@, to@, content@).0);
        r
    }

    /// Answers `/users` and `/history` (journaling them first) and any other
    /// command with an error.
    pub fn command(&mut self, from: &String, command: &String) -> (r: Vec<Delivery>)
        requires
            old(self).wf(),
        ensures
            final(self).wf(),
            (final(self)@, deliveries_view(r@)) == spec_command(old(self)@, from@, command@),
    {
        let users = String::from_str("/users");
        let history = String::from_str("/history");
        if *command == users {
            let line = String::from_str("You issued: ").concat(command.as_str());
            proof {
                crate::history::lemma_logs_append(self@.privates, from@, line@, from@);
            }
            self.private_history.append(from, line);
            let msg = if self.clients.len() == 0 {
                ServerMessage::System { content: String::from_str("No User Online") }
            } else {
                ServerMessage::UserList { content: self.clients.names(), to: from.clone() }
            };
            let r = self.reply_to(from, msg);
            assert(self@ == spec_command(old(self)@, from@, command@).0);
            r
        } else if *command == history {
            let line = String::from_str("You issued: ").concat(command.as_str());
            proof {
                crate::history::lemma_logs_append(self@.privates, from@, line@, from@);
            }
            self.private_history.append(from, line);
            let mut lines: Vec<String> = Vec::new();
            lines.push(String::from_str("=== Broadcast History ==="));
            let mut global = self.broadcast_history.to_vec();
            lines.append(&mut global);
            lines.push(String::from_str("=== Your Private History ==="));
            let mut own = self.private_history.lines_of(from);
            lines.append(&mut own);
            assert(strings_view(lines@) =~= seq!["=== Broadcast History ==="@] + self@.global
                + seq!["=== Your Private History ==="@] + private_of(self@.privates, from@));
            let text = join_lines(&lines);
            let r = self.reply_to(from, ServerMessage::History { content: text, to: from.clone() });
            assert(self@ == spec_command(old(self)@, from@, command@).0);
            r
        } else {
            let err = String::from_str("No User Online");
            self.reply_to(from, ServerMessage::Error { content: err, to: from.clone() })
        }
    }

    /// Handles the intent of a registered connection.
    pub fn route(&mut self, msg: &ClientMessage) -> (r: Vec<Delivery>)
        requires
            old(self).wf(),
        ensures
            final(self).wf(),
            (final(self)@, deliveries_view(r@)) == spec_intent(old(self)@, msg@),
    {
        match msg {
            ClientMessage::Broadcast { from, content } => self.broadcast(from, content),
            ClientMessage::Private { from, to, content } => self.dispatch(from, to, content),
            ClientMessage::Command { from, command } => self.command(from, command),
            ClientMessage::Register { .. } => {
                let r: Vec<Delivery> = Vec::new();
                assert(deliveries_view(r@) =~= Seq::<(u64, ReplyView)>::empty());
                r
            },
        }
    }

    /// Drops the binding of `name` and tells those left.
    pub fn leave(&mut self, name: &String) -> (r: Vec<Delivery>)
        requires
            old(self).wf(),
        ensures
            final(self).wf(),
            (final(self)@, deliveries_view(r@)) == spec_leave(old(self)@, name@),
    {
        self.clients.remove(name);
        let content = name.clone().concat(" leave the chat");
        let handles = self.clients.handles();
        let r = fan_out_to(&handles, &ServerMessage::System { content });
        assert(self@ == spec_leave(old(self)@, name@).0);
        r
    }

    /// Tells every registered handle to exit, then empties the directory.
    pub fn shutdown(&mut self) -> (r: Vec<Delivery>)
        requires
            old(self).wf(),
        ensures
            final(self).wf(),
            (final(self)@, deliveries_view(r@)) == spec_shutdown(old(self)@),
    {
        let handles = self.clients.handles();
        let r = fan_out_to(&handles, &ServerMessage::Exit);
        self.clients.clear();
        assert(self@ == spec_shutdown(old(self)@).0);
        r
    }
}

} // verus!
