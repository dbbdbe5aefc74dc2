//! Carrying a command out against a store.
use crate::command::{parse_command, parse_line, Command, CommandView};
use crate::reply::{wire, Reply, ReplyView};
use crate::store::Store;
use vstd::prelude::*;

verus! {

/// The store after `command` was carried out on `store`.
pub open spec fn apply(store: Map<Seq<char>, Seq<char>>, command: CommandView) -> Map<
    Seq<char>,
    Seq<char>,
> {
    match command {
        CommandView::Put { key, value } => store.insert(key, value),
        CommandView::Delete { key } => store.remove(key),
        CommandView::Get { key } => store,
        CommandView::Unrecognized => store,
    }
}

/// The reply to `command` when it is carried out on `store`.
pub open spec fn answer(store: Map<Seq<char>, Seq<char>>, command: CommandView) -> ReplyView {
    match command {
        CommandView::Put { key, value } => ReplyView::Stored,
        CommandView::Get { key } => if store.contains_key(key) {
            ReplyView::Bulk(store[key])
        } else {
            ReplyView::Absent
        },
        CommandView::Delete { key } => if store.contains_key(key) {
            ReplyView::Removed
        } else {
            ReplyView::NotFound
        },
        CommandView::Unrecognized => ReplyView::UnknownCommand,
    }
}

/// The reply to a lookup of `key`.
fn lookup(store: &Store, key: &str) -> (reply: Reply)
    ensures
        reply@ == answer(store@, CommandView::Get { key: key@ }),
{
    match store.get(key) {
        Some(value) => Reply::Bulk(value.clone()),
        None => Reply::Absent,
    }
}

impl Store {
    /// Carries `command` out and returns the reply to it.
    pub fn execute(&mut self, command: Command) -> (reply: Reply)
        ensures
            final(self)@ == apply(old(self)@, command@),
            reply@ == answer(old(self)@, command@),
    {
        match command {
            Command::Put { key, value } => {
                self.set(key, value);
                Reply::Stored
            },
            Command::Get { key } => lookup(self, key.as_str()),
            Command::Delete { key } => {
                if self.delete(key.as_str()) {
                    Reply::Removed
                } else {
                    Reply::NotFound
                }
            },
            Command::Unrecognized => Reply::UnknownCommand,
        }
    }

    /// The reply to a command that leaves the store as it is, for a caller
    /// that shares the store with other readers. `None` for a command that
    /// needs the store alone: see [`Store::execute`].
    pub fn query(&self, command: &Command) -> (reply: Option<Reply>)
        ensures
            command@.mutates() ==> reply is None,
            !command@.mutates() ==> reply is Some && reply->0@ == answer(self@, command@),
    {
        match command {
            Command::Get { key } => Some(lookup(self, key.as_str())),
            Command::Unrecognized => Some(Reply::UnknownCommand),
            _ => None,
        }
    }
}

/// Parses one line, carries the command out against `store` and returns the
/// reply as wire text. A line that is no command leaves the store as it is.
pub fn handle_command(cmd: &str, store: &mut Store) -> (response: String)
    ensures
        final(store)@ == apply(old(store)@, parse_line(cmd@)),
        response@ == wire(answer(old(store)@, parse_line(cmd@))),
{
    let command = parse_command(cmd);
    let reply = store.execute(command);
    reply.encode()
}

} // verus!
