//! What holds of connections and their terminals, whatever has gone over them.
use vstd::prelude::*;
use crate::connection::AcpConnection;
use crate::json::Json;
use crate::rpc_laws::{is_call, lemma_member_names_differ};
use crate::terminals::Terminals;

verus! {

/// The calls of a connection are numbered from one, one by one, and say what they call.
pub proof fn law_calls_are_numbered(
    working_dir: &str,
    made: AcpConnection,
    first: &mut AcpConnection,
    method: &str,
    params: Json,
    call: (u64, Json),
    second: &mut AcpConnection,
    next_method: &str,
    next_params: Json,
    next: (u64, Json),
)
    requires
        call_ensures(AcpConnection::new, (working_dir,), made),
        old(first)@.next_id < u64::MAX,
        call_ensures(AcpConnection::call, (first, method, params), call),
        call_ensures(AcpConnection::call, (second, next_method, next_params), next),
        *old(second) == *final(first),
    ensures
        *old(first) == made ==> call.0 == 1,
        next.0 == call.0 + 1,
        is_call(call.1@, call.0 as int, method@),
        call.1@.get("params"@) == Some(params@),
        final(first)@.working_dir == old(first)@.working_dir,
        final(first)@.terminals == old(first)@.terminals,
{
    lemma_member_names_differ();
}

/// A new connection is bound to its directory and has no terminal, and says so.
pub proof fn law_new_connection_has_no_terminals(
    working_dir: &str,
    made: AcpConnection,
    dir: &str,
    next_id: u64,
    terminal: &str,
    open: bool,
)
    requires
        call_ensures(AcpConnection::new, (working_dir,), made),
        call_ensures(AcpConnection::working_dir, (&made,), dir),
        call_ensures(AcpConnection::next_id, (&made,), next_id),
        call_ensures(AcpConnection::has_terminal, (&made, terminal), open),
    ensures
        dir@ == working_dir@,
        next_id == 1,
        !open,
{
}

/// A terminal that is opened is open, and gives back its output once, when it is closed; what is
/// done with it leaves the other terminals, the numbers and the directory as they are.
pub proof fn law_terminal_gives_back_its_output(
    connection: &mut AcpConnection,
    terminal: &str,
    output: Vec<u8>,
    opened: (),
    open: bool,
    closing: &mut AcpConnection,
    closed: Option<Vec<u8>>,
    again: &mut AcpConnection,
    nothing: Option<Vec<u8>>,
    other: Seq<char>,
)
    requires
        call_ensures(AcpConnection::open_terminal, (connection, terminal, output), opened),
        call_ensures(AcpConnection::has_terminal, (&*final(connection), terminal), open),
        call_ensures(AcpConnection::close_terminal, (closing, terminal), closed),
        call_ensures(AcpConnection::close_terminal, (again, terminal), nothing),
        *old(closing) == *final(connection),
        *old(again) == *final(closing),
        other != terminal@,
    ensures
        open,
        closed matches Some(bytes) && bytes@ == output@,
        nothing is None,
        final(closing)@.next_id == old(connection)@.next_id,
        final(closing)@.working_dir == old(connection)@.working_dir,
        final(closing)@.terminals.contains_key(other) == old(connection)@.terminals.contains_key(
            other,
        ),
        old(connection)@.terminals.contains_key(other) ==> final(closing)@.terminals[other]
            == old(connection)@.terminals[other],
{
}

/// A list of terminals gives back what was put into it, under its name and no other.
pub proof fn law_terminals_keep_what_is_put(
    empty: Terminals,
    terminals: &mut Terminals,
    id: &str,
    output: Vec<u8>,
    put: (),
    name: &str,
    found: bool,
    taking: &mut Terminals,
    taken: Option<Vec<u8>>,
)
    requires
        call_ensures(Terminals::new, (), empty),
        call_ensures(Terminals::put, (terminals, id, output), put),
        call_ensures(Terminals::contains, (&*final(terminals), name), found),
        call_ensures(Terminals::take, (taking, name), taken),
        *old(taking) == *final(terminals),
    ensures
        *old(terminals) == empty ==> (found <==> name@ == id@),
        name@ == id@ ==> (taken matches Some(bytes) && bytes@ == output@),
        taken is Some <==> found,
        name@ != id@ ==> found == old(terminals)@.contains_key(name@),
        final(taking)@ == final(terminals)@.remove(name@),
{
}

} // verus!
