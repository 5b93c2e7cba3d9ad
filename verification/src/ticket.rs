//! Tickets: the handles of open transfers, their identifiers and the
//! registry that owns them.

use std::collections::HashMap;
use vstd::prelude::*;
use vstd::arithmetic::power::pow;
use crate::container::Container;

verus! {

/// The identifier that `uuid` reads from a text, if the text is one of the
/// forms it accepts.
pub uninterp spec fn parsed_uuid(text: Seq<char>) -> Option<u128>;

/// The lower-case hexadecimal digit for a value below sixteen.
pub open spec fn lower_hex_char(d: int) -> char {
    if d < 10 {
        (('0' as u8) + d) as u8 as char
    } else {
        (('a' as u8) + d - 10) as u8 as char
    }
}

/// The `k`-th of the 32 hexadecimal digits of an identifier, the most
/// significant first.
pub open spec fn hex_digit_at(id: u128, k: int) -> int {
    (id as int / pow(16, (31 - k) as nat)) % 16
}

/// How many hyphens stand before position `i` of the hyphenated form.
pub open spec fn hyphens_before(i: int) -> int {
    if i < 8 {
        0
    } else if i < 13 {
        1
    } else if i < 18 {
        2
    } else if i < 23 {
        3
    } else {
        4
    }
}

/// The hyphenated form of an identifier: its 32 lower-case hexadecimal
/// digits in groups of 8, 4, 4, 4 and 12, with a hyphen between groups.
pub open spec fn hyphenated_text(id: u128) -> Seq<char> {
    Seq::new(
        36,
        |i: int|
            if i == 8 || i == 13 || i == 18 || i == 23 {
                '-'
            } else {
                lower_hex_char(hex_digit_at(id, i - hyphens_before(i)))
            },
    )
}

/// Whether an identifier carries the marks of a random (version 4)
/// identifier: version 4 and the standard variant.
pub open spec fn is_random_id(id: u128) -> bool {
    id & 0x0000_0000_0000_f000_c000_0000_0000_0000u128
        == 0x0000_0000_0000_4000_8000_0000_0000_0000u128
}

/// A fresh random identifier.
///
/// Trusted: `uuid::Uuid::new_v4`, read as a number with `as_u128`. The
/// value is random; the contract says only that its version and variant
/// bits are those of a version 4 identifier, which the function sets on
/// whatever the generator gave.
#[verifier::external_body]
fn uuid_new_v4() -> (id: u128)
    ensures
        is_random_id(id),
{
    uuid::Uuid::new_v4().as_u128()
}

/// The hyphenated text of an identifier.
///
/// Trusted: `uuid::Uuid::from_u128`, then `hyphenated` and `to_string`,
/// which write the sixteen bytes, most significant first, as lower-case
/// hexadecimal in groups of 8, 4, 4, 4 and 12 digits. `Uuid::parse_str`
/// reads this form back to the same identifier.
#[verifier::external_body]
fn uuid_hyphenated(id: u128) -> (text: String)
    ensures
        text@ == hyphenated_text(id),
        parsed_uuid(text@) == Some(id),
{
    uuid::Uuid::from_u128(id).hyphenated().to_string()
}

/// Reads an identifier from a text.
///
/// Trusted: `uuid::Uuid::parse_str`, with the value read as a number with
/// `as_u128`. The forms it accepts take long to describe, so the contract
/// only gives the result its name.
#[verifier::external_body]
fn uuid_parse_str(text: &str) -> (id: Option<u128>)
    ensures
        id == parsed_uuid(text@),
{
    match uuid::Uuid::parse_str(text) {
        Ok(u) => Some(u.as_u128()),
        Err(_) => None,
    }
}

/// Which workflow a ticket belongs to.
#[derive(Clone, Copy, Debug, PartialEq, Eq, Structural)]
pub enum TicketType {
    UPLOAD,
    DOWNLOAD,
}

/// One open transfer.
#[derive(Clone, Copy, Debug, PartialEq, Eq, Structural)]
pub struct Ticket {
    pub id: u128,
    pub title_id: u64,
    pub kind: TicketType,
    pub container: Container,
}

/// Why an operation of a transfer was refused.
#[derive(Clone, Copy, Debug, PartialEq, Eq, Structural)]
pub enum TransferError {
    /// The container kind is not a recognised one.
    InvalidContainer,
    /// The request cannot be served as it stands.
    InvalidRequest,
    /// The ticket text names no open ticket.
    InvalidTicket,
    /// Nothing is registered or stored under the name given.
    NotFound,
    /// The ticket belongs to the other workflow.
    WrongKind,
    /// A directory or file could not be created, moved, copied or deleted.
    StorageError,
    /// A file could not be read or hashed.
    IoError,
}

/// Draws a fresh random ticket identifier.
pub fn fresh_ticket_id() -> (id: u128)
    ensures
        is_random_id(id),
{
    uuid_new_v4()
}

/// The text by which clients name a ticket.
pub fn ticket_text(id: u128) -> (text: String)
    ensures
        text@ == hyphenated_text(id),
        parsed_uuid(text@) == Some(id),
{
    uuid_hyphenated(id)
}

/// Reads a ticket identifier from the text a client sent.
pub fn parse_ticket(text: &str) -> (r: Result<u128, TransferError>)
    ensures
        match parsed_uuid(text@) {
            Some(id) => r == Ok::<u128, TransferError>(id),
            None => r == Err::<u128, TransferError>(TransferError::InvalidTicket),
        },
{
    match uuid_parse_str(text) {
        Some(id) => Ok(id),
        None => Err(TransferError::InvalidTicket),
    }
}

/// The table of open tickets, keyed by identifier. Every ticket in it is
/// filed under its own identifier.
pub struct Tickets {
    map: HashMap<u128, Ticket>,
}

impl View for Tickets {
    type V = Map<u128, Ticket>;

    closed spec fn view(&self) -> Map<u128, Ticket> {
        self.map@
    }
}

/// Whether every ticket of a table is filed under its own identifier.
pub open spec fn filed_by_id(table: Map<u128, Ticket>) -> bool {
    forall|id: u128| table.contains_key(id) ==> (#[trigger] table[id]).id == id
}

impl Tickets {
    #[verifier::type_invariant]
    spec fn filed(self) -> bool {
        filed_by_id(self.map@)
    }

    /// An empty table.
    pub fn new() -> (r: Tickets)
        ensures
            r@ == Map::<u128, Ticket>::empty(),
    {
        broadcast use vstd::std_specs::hash::group_hash_axioms;

        Tickets { map: HashMap::new() }
    }

    /// How many tickets are open.
    pub fn len(&self) -> (n: usize)
        ensures
            n == self@.len(),
    {
        broadcast use vstd::std_specs::hash::group_hash_axioms;

        self.map.len()
    }

    /// Files a ticket under its identifier. A ticket already filed under
    /// that identifier is replaced.
    pub fn register(&mut self, ticket: Ticket)
        ensures
            final(self)@ == old(self)@.insert(ticket.id, ticket),
    {
        broadcast use vstd::std_specs::hash::group_hash_axioms;

        proof {
            use_type_invariant(&*self);
        }
        let mut map: HashMap<u128, Ticket> = HashMap::new();
        std::mem::swap(&mut map, &mut self.map);
        map.insert(ticket.id, ticket);
        self.map = map;
    }

    /// Opens a ticket under a fresh random identifier and returns it.
    pub fn create(&mut self, title_id: u64, kind: TicketType, container: Container) -> (ticket:
        Ticket)
        ensures
            is_random_id(ticket.id),
            ticket.title_id == title_id,
            ticket.kind == kind,
            ticket.container == container,
            final(self)@ == old(self)@.insert(ticket.id, ticket),
    {
        let ticket = Ticket { id: fresh_ticket_id(), title_id, kind, container };
        self.register(ticket);
        ticket
    }

    /// The ticket filed under an identifier.
    pub fn lookup(&self, id: u128) -> (r: Result<Ticket, TransferError>)
        ensures
            self@.contains_key(id) ==> r == Ok::<Ticket, TransferError>(self@[id]),
            !self@.contains_key(id) ==> r == Err::<Ticket, TransferError>(TransferError::NotFound),
            r matches Ok(t) ==> t.id == id,
    {
        broadcast use vstd::std_specs::hash::group_hash_axioms;

        proof {
            use_type_invariant(self);
        }
        match self.map.get(&id) {
            Some(t) => Ok(*t),
            None => Err(TransferError::NotFound),
        }
    }

    /// Takes the ticket filed under an identifier out of the table, and
    /// says whether there was one. Taking out what is not there changes
    /// nothing.
    pub fn remove(&mut self, id: u128) -> (was_open: bool)
        ensures
            final(self)@ == old(self)@.remove(id),
            was_open == old(self)@.contains_key(id),
    {
        broadcast use vstd::std_specs::hash::group_hash_axioms;

        proof {
            use_type_invariant(&*self);
        }
        let mut map: HashMap<u128, Ticket> = HashMap::new();
        std::mem::swap(&mut map, &mut self.map);
        let taken = map.remove(&id);
        self.map = map;
        taken.is_some()
    }

    /// Closes every ticket.
    pub fn purge_all(&mut self)
        ensures
            final(self)@ == Map::<u128, Ticket>::empty(),
    {
        broadcast use vstd::std_specs::hash::group_hash_axioms;

        self.map = HashMap::new();
    }
}

} // verus!
