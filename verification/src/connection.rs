//! The state of a connection to an agent.
use vstd::prelude::*;
use crate::json::Json;
use crate::rpc::{request, request_message};
use crate::terminals::Terminals;

verus! {

/// What a connection knows.
pub struct ConnectionView {
    pub next_id: u64,
    pub working_dir: Seq<char>,
    pub terminals: Map<Seq<char>, Seq<u8>>,
}

/// A connection to an agent: it numbers the calls that go out, and remembers the working
/// directory and the terminals that the agent has open.
#[derive(Debug)]
pub struct AcpConnection {
    next_id: u64,
    working_dir: String,
    terminals: Terminals,
}

impl View for AcpConnection {
    type V = ConnectionView;

    closed spec fn view(&self) -> ConnectionView {
        ConnectionView {
            next_id: self.next_id,
            working_dir: self.working_dir@,
            terminals: self.terminals@,
        }
    }
}

impl AcpConnection {
    /// A connection over which nothing has been sent yet.
    pub fn new(working_dir: &str) -> (r: AcpConnection)
        ensures
            r@ == (ConnectionView {
                next_id: 1,
                working_dir: working_dir@,
                terminals: Map::empty(),
            }),
    {
        AcpConnection {
            next_id: 1,
            working_dir: working_dir.to_string(),
            terminals: Terminals::new(),
        }
    }

    /// The number of the next call.
    pub fn next_id(&self) -> (r: u64)
        ensures
            r == self@.next_id,
    {
        self.next_id
    }

    /// The directory that bounds what the agent may touch.
    pub fn working_dir(&self) -> (r: &str)
        ensures
            r@ == self@.working_dir,
    {
        self.working_dir.as_str()
    }

    /// Makes the message of the next call, and counts the call.
    pub fn call(&mut self, method: &str, params: Json) -> (r: (u64, Json))
        requires
            old(self)@.next_id < u64::MAX,
        ensures
            r.0 == old(self)@.next_id,
            r.1@ == request_message(r.0, method@, params@),
            final(self)@ == (ConnectionView {
                next_id: (old(self)@.next_id + 1) as u64,
                ..old(self)@
            }),
    {
        let id = self.next_id;
        self.next_id = id + 1;
        (id, request(id, method, params))
    }

    /// Whether the agent has a terminal `id` open.
    pub fn has_terminal(&self, id: &str) -> (r: bool)
        ensures
            r == self@.terminals.contains_key(id@),
    {
        self.terminals.contains(id)
    }

    /// Closes the terminal `id` and gives back its output.
    pub fn close_terminal(&mut self, id: &str) -> (r: Option<Vec<u8>>)
        ensures
            final(self)@ == (ConnectionView {
                terminals: old(self)@.terminals.remove(id@),
                ..old(self)@
            }),
            match r {
                Some(output) => old(self)@.terminals.contains_key(id@)
                    && old(self)@.terminals[id@] == output@,
                None => !old(self)@.terminals.contains_key(id@),
            },
    {
        self.terminals.take(id)
    }

    /// Opens the terminal `id` with the output `output`.
    pub fn open_terminal(&mut self, id: &str, output: Vec<u8>)
        ensures
            final(self)@ == (ConnectionView {
                terminals: old(self)@.terminals.insert(id@, output@),
                ..old(self)@
            }),
    {
        self.terminals.put(id, output);
    }
}

} // verus!
