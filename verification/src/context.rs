//! The state of a server, and the step that a session takes with each
//! buffer it has read: one request is decoded and carried out, and the
//! frames of its replies are handed back to be written.

use crate::config::{Config, ConfigView};
use crate::execute::{
    entries_after, execute_command, replies, Replication, ReplicationView, Role,
};
use crate::parser::{decode, error_message, parse_input, RedisCommand};
use crate::reply::{encode_all, encode_replies, encode_reply, reply_views, Reply, ReplyView};
use crate::store::{Entry, Store};
use vstd::prelude::*;

verus! {

/// The state of a server: its role, its replication identity, its store.
pub struct AppContext {
    role: Role,
    storage: Store,
    replication: Replication,
}

/// What an `AppContext` holds.
pub struct ContextView {
    pub role: Role,
    pub entries: Map<Seq<char>, Entry>,
    pub replication: ReplicationView,
}

/// What a session does after it has read a buffer.
#[derive(Debug, Clone, PartialEq, Eq)]
pub enum SessionAction {
    /// Write the bytes and read on.
    Respond(Vec<u8>),
    /// Write the bytes, which report an error, and end the session.
    Abort(Vec<u8>),
    /// End the session and write nothing: the peer has shut down.
    Stop,
}

/// What a `SessionAction` holds.
pub enum SessionActionView {
    Respond(Seq<u8>),
    Abort(Seq<u8>),
    Stop,
}

impl View for AppContext {
    type V = ContextView;

    closed spec fn view(&self) -> ContextView {
        ContextView { role: self.role, entries: self.storage@, replication: self.replication@ }
    }
}

impl View for SessionAction {
    type V = SessionActionView;

    open spec fn view(&self) -> SessionActionView {
        match self {
            SessionAction::Respond(bytes) => SessionActionView::Respond(bytes@),
            SessionAction::Abort(bytes) => SessionActionView::Abort(bytes@),
            SessionAction::Stop => SessionActionView::Stop,
        }
    }
}

/// The identity under which every master replicates.
pub open spec fn replication_id() -> Seq<char> {
    "8371b4fb1155b71f4a04d3e1bc3e18c4a990aeeb"@
}

/// The state in which a server with the configuration `config` starts: a
/// replica if it was given a master, else a master; with an empty store.
pub open spec fn initial_context(config: ConfigView) -> ContextView {
    ContextView {
        role: if config.replica_of is Some {
            Role::Replica
        } else {
            Role::Master
        },
        entries: Map::empty(),
        replication: ReplicationView { id: replication_id(), offset: 0 },
    }
}

/// What a session does with the buffer `input`, read at `now`. An empty
/// buffer means that the peer has shut down. A buffer that holds a request
/// is answered with the frames of its replies. Any other buffer is
/// answered with one error frame, and the session ends.
pub open spec fn session_action(context: ContextView, input: Seq<char>, now: u64) -> SessionActionView {
    if input.len() == 0 {
        SessionActionView::Stop
    } else {
        match decode(input) {
            Ok(command) => SessionActionView::Respond(
                encode_replies(
                    replies(command, context.entries, context.role, context.replication, now),
                ),
            ),
            Err(error) => SessionActionView::Abort(
                encode_reply(ReplyView::Error(error_message(error))),
            ),
        }
    }
}

/// What the buffer `input`, read at `now`, leaves in the store.
pub open spec fn session_entries(context: ContextView, input: Seq<char>, now: u64) -> Map<
    Seq<char>,
    Entry,
> {
    if input.len() == 0 {
        context.entries
    } else {
        match decode(input) {
            Ok(command) => entries_after(command, context.entries, now),
            Err(_) => context.entries,
        }
    }
}

/// The state of the server after a session has taken `input` at `now`:
/// only the store can have changed.
pub open spec fn context_after(context: ContextView, input: Seq<char>, now: u64) -> ContextView {
    ContextView { entries: session_entries(context, input, now), ..context }
}

impl AppContext {
    /// The state in which a server with the configuration `config` starts.
    pub fn new(config: &Config) -> (context: AppContext)
        ensures
            context@ == initial_context(config@),
    {
        let replication = Replication {
            id: String::from_str("8371b4fb1155b71f4a04d3e1bc3e18c4a990aeeb"),
            offset: 0,
        };
        let role = match config.replica_of {
            Some(_) => Role::Replica,
            None => Role::Master,
        };
        AppContext { storage: Store::new(), role, replication }
    }

    /// Carries out `command` at `now` and returns what is to be answered.
    /// Only the store can change.
    pub fn execute(&mut self, command: RedisCommand, now: u64) -> (out: Vec<Reply>)
        ensures
            reply_views(out@) == replies(
                command@,
                old(self)@.entries,
                old(self)@.role,
                old(self)@.replication,
                now,
            ),
            final(self)@ == (ContextView {
                entries: entries_after(command@, old(self)@.entries, now),
                ..old(self)@
            }),
    {
        execute_command(command, &mut self.storage, self.role, &self.replication, now)
    }

    /// Takes one buffer that a session has read at `now`, and says what the
    /// session does next.
    pub fn handle(&mut self, input: &str, now: u64) -> (action: SessionAction)
        ensures
            action@ == session_action(old(self)@, input@, now),
            final(self)@ == context_after(old(self)@, input@, now),
    {
        if input.is_empty() {
            return SessionAction::Stop;
        }
        match parse_input(input) {
            Ok(command) => {
                let out = self.execute(command, now);
                SessionAction::Respond(encode_all(&out))
            },
            Err(error) => {
                let reply = Reply::Error(error.message());
                SessionAction::Abort(reply.encode())
            },
        }
    }

    /// The role of this server.
    pub fn role(&self) -> (role: Role)
        ensures
            role == self@.role,
    {
        self.role
    }

    /// The replication identity of this server.
    pub fn replication(&self) -> (replication: &Replication)
        ensures
            replication@ == self@.replication,
    {
        &self.replication
    }
}

} // verus!
