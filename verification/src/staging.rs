//! The staging area: one directory per open ticket, apart from the data
//! root, and the way from a ticket text to the ticket it names.

use vstd::prelude::*;
use crate::ticket::{
    hyphenated_text, parse_ticket, parsed_uuid, ticket_text, Ticket, TicketType, Tickets,
    TransferError,
};
use crate::title::{join_path, joined};

verus! {

/// The staging root as a text.
pub open spec fn staging_root() -> Seq<char> {
    seq!['.', '/', 't', 'i', 'c', 'k', 'e', 't', 's']
}

/// The staging directory of a ticket: the directory named by the ticket's
/// hyphenated text, under the staging root.
pub open spec fn ticket_dir(id: u128) -> Seq<char> {
    joined(staging_root(), hyphenated_text(id))
}

/// A path without the `/` that roots it in a container.
pub open spec fn relative(path: Seq<char>) -> Seq<char> {
    if path.len() > 0 && path[0] == '/' {
        path.subrange(1, path.len() as int)
    } else {
        path
    }
}

/// Where a file of a transfer lies in the ticket's staging directory.
pub open spec fn staged_file(id: u128, path: Seq<char>) -> Seq<char> {
    joined(ticket_dir(id), relative(path))
}

/// The staging root, under which every ticket has its directory.
pub fn tickets_path() -> (path: String)
    ensures
        path@ == staging_root(),
{
    proof {
        reveal_strlit("./tickets");
        assert("./tickets"@ =~= staging_root());
    }
    String::from_str("./tickets")
}

/// The staging directory of a ticket.
pub fn ticket_path(id: u128) -> (path: String)
    ensures
        path@ == ticket_dir(id),
{
    join_path(tickets_path().as_str(), ticket_text(id).as_str())
}

/// Where a file of a transfer lies in the ticket's staging directory.
pub fn staged_path(id: u128, path: &str) -> (r: String)
    ensures
        r@ == staged_file(id, path@),
{
    let n: usize = path.unicode_len();
    let dir = ticket_path(id);
    if n > 0 && path.get_char(0) == '/' {
        join_path(dir.as_str(), path.substring_char(1, n))
    } else {
        join_path(dir.as_str(), path)
    }
}

/// Every staging directory lies directly under the staging root.
pub proof fn lemma_ticket_dir_under_root(id: u128)
    ensures
        ticket_dir(id) == staging_root().push('/') + hyphenated_text(id),
        ticket_dir(id).len() == staging_root().len() + 37,
        ticket_dir(id).subrange(0, staging_root().len() as int) == staging_root(),
{
    assert(staging_root().last() == 's');
    assert(ticket_dir(id).subrange(0, staging_root().len() as int) =~= staging_root());
}

/// Every file of a transfer is written and read below the staging
/// directory of its ticket, whatever its path.
pub proof fn lemma_staged_file_under_ticket_dir(id: u128, path: Seq<char>)
    ensures
        staged_file(id, path).len() > ticket_dir(id).len(),
        staged_file(id, path).subrange(0, ticket_dir(id).len() as int) == ticket_dir(id),
        staged_file(id, path)[ticket_dir(id).len() as int] == '/',
{
    let dir = ticket_dir(id);
    assert(dir.last() == hyphenated_text(id)[35]);
    assert(dir.last() != '/');
    assert(staged_file(id, path).subrange(0, dir.len() as int) =~= dir);
}

/// The ticket that a text claims for a workflow: the text has to be read
/// as an identifier, a ticket has to be open under it, and that ticket has
/// to belong to the workflow.
pub open spec fn claimed_ticket(table: Map<u128, Ticket>, text: Seq<char>, kind: TicketType)
    -> Result<Ticket, TransferError> {
    match parsed_uuid(text) {
        None => Err(TransferError::InvalidTicket),
        Some(id) => if !table.contains_key(id) {
            Err(TransferError::InvalidTicket)
        } else if table[id].kind != kind {
            Err(TransferError::WrongKind)
        } else {
            Ok(table[id])
        },
    }
}

/// Finds the ticket that a text claims for a workflow.
pub fn claim_ticket(tickets: &Tickets, text: &str, kind: TicketType) -> (r: Result<
    Ticket,
    TransferError,
>)
    ensures
        r == claimed_ticket(tickets@, text@, kind),
        r matches Ok(t) ==> parsed_uuid(text@) == Some(t.id),
{
    let id = match parse_ticket(text) {
        Ok(id) => id,
        Err(e) => {
            return Err(e);
        },
    };
    match tickets.lookup(id) {
        Err(_) => Err(TransferError::InvalidTicket),
        Ok(t) => {
            if t.kind != kind {
                Err(TransferError::WrongKind)
            } else {
                Ok(t)
            }
        },
    }
}

/// The table after a ticket text was closed: without the ticket that the
/// text names. A text that names none leaves the table as it is.
pub open spec fn table_without(table: Map<u128, Ticket>, text: Seq<char>) -> Map<u128, Ticket> {
    match parsed_uuid(text) {
        Some(id) => table.remove(id),
        None => table,
    }
}

/// What closing a ticket text returns: the staging directory to discard,
/// whether or not a ticket was open under the identifier. Only a text that
/// cannot be read as an identifier is refused.
pub open spec fn closed_dir(text: Seq<char>) -> Result<Seq<char>, TransferError> {
    match parsed_uuid(text) {
        Some(id) => Ok(ticket_dir(id)),
        None => Err(TransferError::InvalidTicket),
    }
}

/// Closes the ticket that a text names and returns the staging directory
/// to discard. Closing a ticket that is not open is no error and changes
/// nothing.
pub fn close_ticket(tickets: &mut Tickets, text: &str) -> (r: Result<String, TransferError>)
    ensures
        final(tickets)@ == table_without(old(tickets)@, text@),
        match closed_dir(text@) {
            Ok(dir) => r matches Ok(d) && d@ == dir,
            Err(e) => r == Err::<String, TransferError>(e),
        },
{
    match parse_ticket(text) {
        Err(e) => Err(e),
        Ok(id) => {
            tickets.remove(id);
            Ok(ticket_path(id))
        },
    }
}

/// Closing a ticket twice is the same as closing it once: the second call
/// leaves the table as the first left it, and what a call returns does
/// not depend on the table, so the second returns what the first did.
pub proof fn lemma_close_is_idempotent(table: Map<u128, Ticket>, text: Seq<char>)
    ensures
        table_without(table_without(table, text), text) == table_without(table, text),
        parsed_uuid(text) matches Some(id) ==> !table_without(table, text).contains_key(id),
{
    assert(table_without(table_without(table, text), text) =~= table_without(table, text));
}

/// A text that names no open ticket claims none: it is refused as an
/// invalid ticket, for either workflow.
pub proof fn lemma_unknown_ticket_is_refused(
    table: Map<u128, Ticket>,
    text: Seq<char>,
    kind: TicketType,
)
    requires
        match parsed_uuid(text) {
            Some(id) => !table.contains_key(id),
            None => true,
        },
    ensures
        claimed_ticket(table, text, kind) == Err::<Ticket, TransferError>(
            TransferError::InvalidTicket,
        ),
{
}

/// After a ticket was closed, its text claims no ticket any more.
pub proof fn lemma_closed_ticket_is_refused(
    table: Map<u128, Ticket>,
    text: Seq<char>,
    kind: TicketType,
)
    ensures
        claimed_ticket(table_without(table, text), text, kind) == Err::<Ticket, TransferError>(
            TransferError::InvalidTicket,
        ),
{
}

/// Closing a ticket leaves every other ticket as it was.
pub proof fn lemma_close_keeps_others(table: Map<u128, Ticket>, text: Seq<char>, other: u128)
    requires
        parsed_uuid(text) != Some(other),
    ensures
        table_without(table, text).contains_key(other) == table.contains_key(other),
        table.contains_key(other) ==> table_without(table, text)[other] == table[other],
{
}

} // verus!
