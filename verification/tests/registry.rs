use save_sync::container::Container;
use save_sync::staging::{claim_ticket, close_ticket, staged_path, ticket_path, tickets_path};
use save_sync::ticket::{
    fresh_ticket_id, parse_ticket, ticket_text, Ticket, TicketType, Tickets, TransferError,
};

const ID: u128 = 0xa1a2a3a4_b1b2_c1c2_d1d2_d3d4d5d6d7d8;

const ID_TEXT: &str = "a1a2a3a4-b1b2-c1c2-d1d2-d3d4d5d6d7d8";

fn upload_ticket(id: u128) -> Ticket {
    Ticket { id, title_id: 0x1f, kind: TicketType::UPLOAD, container: Container::SAVE }
}

#[test]
fn ticket_text_is_hyphenated_lower_case_hex() {
    assert_eq!(ticket_text(ID), ID_TEXT);
    assert_eq!(ticket_text(0), "00000000-0000-0000-0000-000000000000");
    assert_eq!(ticket_text(u128::MAX), "ffffffff-ffff-ffff-ffff-ffffffffffff");
    assert_eq!(ticket_text(0x0123456789abcdef_0fedcba987654321), "01234567-89ab-cdef-0fed-cba987654321");
}

#[test]
fn ticket_text_is_read_back() {
    for id in [0u128, 1, ID, u128::MAX, 0x0123456789abcdef_0fedcba987654321] {
        assert_eq!(parse_ticket(&ticket_text(id)), Ok(id));
    }
}

#[test]
fn ticket_text_is_read_in_other_forms() {
    assert_eq!(parse_ticket("A1A2A3A4-B1B2-C1C2-D1D2-D3D4D5D6D7D8"), Ok(ID));
    assert_eq!(parse_ticket("a1a2a3a4b1b2c1c2d1d2d3d4d5d6d7d8"), Ok(ID));
}

#[test]
fn malformed_ticket_text_is_refused() {
    assert_eq!(parse_ticket(""), Err(TransferError::InvalidTicket));
    assert_eq!(parse_ticket("ticket"), Err(TransferError::InvalidTicket));
    assert_eq!(parse_ticket("a1a2a3a4-b1b2-c1c2-d1d2-d3d4d5d6d7d"), Err(TransferError::InvalidTicket));
    assert_eq!(parse_ticket("a1a2a3a4-b1b2-c1c2-d1d2-d3d4d5d6d7dg"), Err(TransferError::InvalidTicket));
    assert_eq!(parse_ticket("../a1a2a3a4-b1b2-c1c2-d1d2-d3d4d5d6"), Err(TransferError::InvalidTicket));
}

#[test]
fn fresh_ids_are_version_four() {
    let a = fresh_ticket_id();
    let b = fresh_ticket_id();
    for id in [a, b] {
        assert_eq!((id >> 76) & 0xf, 4);
        assert_eq!((id >> 62) & 0x3, 2);
        let text = ticket_text(id);
        assert_eq!(text.len(), 36);
        assert_eq!(&text[14..15], "4");
    }
    assert_ne!(a, b);
}

#[test]
fn registry_starts_empty() {
    let tickets = Tickets::new();
    assert_eq!(tickets.len(), 0);
    assert_eq!(tickets.lookup(ID), Err(TransferError::NotFound));
}

#[test]
fn registered_tickets_are_found() {
    let mut tickets = Tickets::new();
    tickets.register(upload_ticket(ID));
    tickets.register(upload_ticket(7));
    assert_eq!(tickets.len(), 2);
    assert_eq!(tickets.lookup(ID), Ok(upload_ticket(ID)));
    assert_eq!(tickets.lookup(7), Ok(upload_ticket(7)));
    assert_eq!(tickets.lookup(8), Err(TransferError::NotFound));
}

#[test]
fn registering_again_replaces_the_ticket() {
    let mut tickets = Tickets::new();
    tickets.register(upload_ticket(ID));
    let other = Ticket { id: ID, title_id: 9, kind: TicketType::DOWNLOAD, container: Container::EXTDATA };
    tickets.register(other);
    assert_eq!(tickets.len(), 1);
    assert_eq!(tickets.lookup(ID), Ok(other));
}

#[test]
fn created_tickets_are_filed_under_a_fresh_id() {
    let mut tickets = Tickets::new();
    let a = tickets.create(0x1f, TicketType::UPLOAD, Container::SAVE);
    let b = tickets.create(0x20, TicketType::DOWNLOAD, Container::EXTDATA);
    assert_ne!(a.id, b.id);
    assert_eq!(a.title_id, 0x1f);
    assert_eq!(a.kind, TicketType::UPLOAD);
    assert_eq!(a.container, Container::SAVE);
    assert_eq!(b.title_id, 0x20);
    assert_eq!(b.kind, TicketType::DOWNLOAD);
    assert_eq!(b.container, Container::EXTDATA);
    assert_eq!(tickets.len(), 2);
    assert_eq!(tickets.lookup(a.id), Ok(a));
    assert_eq!(tickets.lookup(b.id), Ok(b));
    assert_eq!((a.id >> 76) & 0xf, 4);
}

#[test]
fn removing_is_idempotent() {
    let mut tickets = Tickets::new();
    tickets.register(upload_ticket(ID));
    tickets.register(upload_ticket(7));
    assert!(tickets.remove(ID));
    assert_eq!(tickets.len(), 1);
    assert!(!tickets.remove(ID));
    assert_eq!(tickets.len(), 1);
    assert_eq!(tickets.lookup(ID), Err(TransferError::NotFound));
    assert_eq!(tickets.lookup(7), Ok(upload_ticket(7)));
    assert!(!tickets.remove(12345));
    assert_eq!(tickets.len(), 1);
}

#[test]
fn purging_closes_every_ticket() {
    let mut tickets = Tickets::new();
    tickets.register(upload_ticket(1));
    tickets.register(upload_ticket(2));
    tickets.purge_all();
    assert_eq!(tickets.len(), 0);
    assert_eq!(tickets.lookup(1), Err(TransferError::NotFound));
    tickets.purge_all();
    assert_eq!(tickets.len(), 0);
}

#[test]
fn staging_paths() {
    assert_eq!(tickets_path(), "./tickets");
    assert_eq!(ticket_path(ID), format!("./tickets/{}", ID_TEXT));
    assert_eq!(staged_path(ID, "/a/b.bin"), format!("./tickets/{}/a/b.bin", ID_TEXT));
    assert_eq!(staged_path(ID, "a/b.bin"), format!("./tickets/{}/a/b.bin", ID_TEXT));
    assert_eq!(staged_path(ID, "/"), format!("./tickets/{}/", ID_TEXT));
    assert_eq!(staged_path(ID, ""), format!("./tickets/{}/", ID_TEXT));
    assert_eq!(staged_path(ID, "/\u{e4}/\u{1f600}"), format!("./tickets/{}/\u{e4}/\u{1f600}", ID_TEXT));
}

#[test]
fn claiming_a_ticket() {
    let mut tickets = Tickets::new();
    tickets.register(upload_ticket(ID));
    assert_eq!(claim_ticket(&tickets, ID_TEXT, TicketType::UPLOAD), Ok(upload_ticket(ID)));
    assert_eq!(claim_ticket(&tickets, ID_TEXT, TicketType::DOWNLOAD), Err(TransferError::WrongKind));
    assert_eq!(
        claim_ticket(&tickets, &ticket_text(7), TicketType::UPLOAD),
        Err(TransferError::InvalidTicket)
    );
    assert_eq!(claim_ticket(&tickets, "seven", TicketType::UPLOAD), Err(TransferError::InvalidTicket));
    assert_eq!(tickets.len(), 1);
}

#[test]
fn closing_a_ticket_twice() {
    let mut tickets = Tickets::new();
    tickets.register(upload_ticket(ID));
    tickets.register(upload_ticket(7));
    assert_eq!(close_ticket(&mut tickets, ID_TEXT), Ok(format!("./tickets/{}", ID_TEXT)));
    assert_eq!(tickets.len(), 1);
    assert_eq!(close_ticket(&mut tickets, ID_TEXT), Ok(format!("./tickets/{}", ID_TEXT)));
    assert_eq!(tickets.len(), 1);
    assert_eq!(tickets.lookup(7), Ok(upload_ticket(7)));
    assert_eq!(close_ticket(&mut tickets, "nonsense"), Err(TransferError::InvalidTicket));
    assert_eq!(tickets.len(), 1);
}
