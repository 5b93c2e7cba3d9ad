use save_sync::container::Container;
use save_sync::download;
use save_sync::download::{download_begin, download_begin_with, download_end, download_file, is_all_keep};
use save_sync::file_info::{ClientFileInfo, DownloadAction, ServerFile};
use save_sync::ticket::{parse_ticket, ticket_text, Ticket, TicketType, Tickets, TransferError};
use save_sync::upload;
use save_sync::upload::{upload_begin, upload_begin_with, upload_cancel, upload_end, upload_file};

const ID: u128 = 0x936da01f_9abd_4d9d_80c7_02af85c822a8;

const ID_TEXT: &str = "936da01f-9abd-4d9d-80c7-02af85c822a8";

fn declared(path: &str, size: u64, hash: &str) -> ClientFileInfo {
    ClientFileInfo::new(path.to_string(), size, Some(hash.to_string()))
}

fn held(path: &str, size: u64, hash: &str) -> ServerFile {
    ServerFile::new(path.to_string(), size, hash.to_string())
}

fn upload_body(container: &str, files: Vec<ClientFileInfo>) -> upload::BeginBody {
    upload::BeginBody { id: 0x1f, container: container.to_string(), files }
}

fn download_body(container: &str, files: Vec<ClientFileInfo>) -> download::BeginBody {
    download::BeginBody { id: 0x2a, container: container.to_string(), existing_files: files }
}

#[test]
fn upload_begin_refuses_unknown_container_before_anything_is_opened() {
    let mut tickets = Tickets::new();
    let body = upload_body("cartridge", vec![declared("/a", 1, "h")]);
    let r = upload_begin_with(&mut tickets, &body, None, ID);
    assert!(matches!(r, Err(TransferError::InvalidContainer)));
    assert_eq!(tickets.len(), 0);
    let r = upload_begin(&mut tickets, &body, Some(&vec![]));
    assert!(matches!(r, Err(TransferError::InvalidContainer)));
    assert_eq!(tickets.len(), 0);
}

#[test]
fn upload_begin_refuses_unknown_container_before_empty_list() {
    let mut tickets = Tickets::new();
    let r = upload_begin_with(&mut tickets, &upload_body("nope", vec![]), None, ID);
    assert!(matches!(r, Err(TransferError::InvalidContainer)));
}

#[test]
fn upload_begin_refuses_empty_file_list() {
    let mut tickets = Tickets::new();
    let r = upload_begin_with(&mut tickets, &upload_body("SAVE", vec![]), None, ID);
    assert!(matches!(r, Err(TransferError::InvalidRequest)));
    assert_eq!(tickets.len(), 0);
}

#[test]
fn upload_begin_without_container_wants_every_file_once() {
    let mut tickets = Tickets::new();
    let body = upload_body("save", vec![declared("/b", 2, "y"), declared("/a", 1, "x"), declared("/b", 2, "y")]);
    let r = upload_begin_with(&mut tickets, &body, None, ID).unwrap().unwrap();
    assert_eq!(r.ticket, ID_TEXT);
    assert_eq!(r.files, vec!["/b".to_string(), "/a".to_string()]);
    assert_eq!(
        tickets.lookup(ID),
        Ok(Ticket { id: ID, title_id: 0x1f, kind: TicketType::UPLOAD, container: Container::SAVE })
    );
    assert_eq!(tickets.len(), 1);
}

#[test]
fn upload_begin_wants_only_what_the_server_lacks() {
    let mut tickets = Tickets::new();
    let body = upload_body("EXTDATA", vec![declared("/a", 10, "h1"), declared("/b", 20, "h2")]);
    let listing = vec![held("/a", 10, "h1")];
    let r = upload_begin_with(&mut tickets, &body, Some(&listing), ID).unwrap().unwrap();
    assert_eq!(r.ticket, ID_TEXT);
    assert_eq!(r.files, vec!["/b".to_string()]);
    assert_eq!(tickets.lookup(ID).unwrap().container, Container::EXTDATA);
}

#[test]
fn upload_begin_reports_nothing_to_do_and_opens_no_ticket() {
    let mut tickets = Tickets::new();
    let body = upload_body("SAVE", vec![declared("/a", 10, "h1")]);
    let listing = vec![held("/a", 10, "h1"), held("/z", 1, "q")];
    let r = upload_begin_with(&mut tickets, &body, Some(&listing), ID);
    assert!(matches!(r, Ok(None)));
    assert_eq!(tickets.len(), 0);
    let r = upload_begin(&mut tickets, &body, Some(&listing));
    assert!(matches!(r, Ok(None)));
    assert_eq!(tickets.len(), 0);
}

#[test]
fn upload_begin_draws_a_fresh_ticket() {
    let mut tickets = Tickets::new();
    let body = upload_body("SAVE", vec![declared("/a", 10, "h1")]);
    let first = upload_begin(&mut tickets, &body, None).unwrap().unwrap();
    let second = upload_begin(&mut tickets, &body, Some(&vec![])).unwrap().unwrap();
    assert_ne!(first.ticket, second.ticket);
    assert_eq!(first.files, vec!["/a".to_string()]);
    assert_eq!(second.files, vec!["/a".to_string()]);
    assert_eq!(tickets.len(), 2);
    let id = parse_ticket(&first.ticket).unwrap();
    assert_eq!(ticket_text(id), first.ticket);
    assert_eq!(tickets.lookup(id).unwrap().kind, TicketType::UPLOAD);
    assert_eq!(tickets.lookup(id).unwrap().title_id, 0x1f);
}

#[test]
fn upload_file_goes_to_the_staging_directory() {
    let mut tickets = Tickets::new();
    let body = upload_body("SAVE", vec![declared("/dir/a.bin", 10, "h1")]);
    upload_begin_with(&mut tickets, &body, None, ID).unwrap();
    assert_eq!(
        upload_file(&tickets, ID_TEXT, "/dir/a.bin"),
        Ok(format!("./tickets/{}/dir/a.bin", ID_TEXT))
    );
    assert_eq!(
        upload_file(&tickets, ID_TEXT, "/dir/a.bin"),
        Ok(format!("./tickets/{}/dir/a.bin", ID_TEXT))
    );
    assert_eq!(tickets.len(), 1);
}

#[test]
fn upload_file_refuses_unknown_and_foreign_tickets() {
    let mut tickets = Tickets::new();
    tickets.register(Ticket { id: ID, title_id: 1, kind: TicketType::DOWNLOAD, container: Container::SAVE });
    assert_eq!(upload_file(&tickets, ID_TEXT, "/a"), Err(TransferError::WrongKind));
    assert_eq!(upload_file(&tickets, &ticket_text(5), "/a"), Err(TransferError::InvalidTicket));
    assert_eq!(upload_file(&tickets, "not-a-ticket", "/a"), Err(TransferError::InvalidTicket));
    assert_eq!(tickets.len(), 1);
}

#[test]
fn upload_end_says_what_to_move_and_closes_the_ticket() {
    let mut tickets = Tickets::new();
    let body = upload_body("extdata", vec![declared("/a", 10, "h1")]);
    upload_begin_with(&mut tickets, &body, None, ID).unwrap();
    let plan = upload_end(&mut tickets, "./data", ID_TEXT).unwrap();
    assert_eq!(plan.staging, format!("./tickets/{}", ID_TEXT));
    assert_eq!(plan.container, "./data/1F/extdata");
    assert_eq!(tickets.len(), 0);
    assert!(matches!(upload_end(&mut tickets, "./data", ID_TEXT), Err(TransferError::InvalidTicket)));
}

#[test]
fn upload_end_refuses_unknown_and_foreign_tickets() {
    let mut tickets = Tickets::new();
    tickets.register(Ticket { id: ID, title_id: 1, kind: TicketType::DOWNLOAD, container: Container::SAVE });
    assert!(matches!(upload_end(&mut tickets, "./data", ID_TEXT), Err(TransferError::WrongKind)));
    assert!(matches!(
        upload_end(&mut tickets, "./data", &ticket_text(5)),
        Err(TransferError::InvalidTicket)
    ));
    assert!(matches!(upload_end(&mut tickets, "./data", "x"), Err(TransferError::InvalidTicket)));
    assert_eq!(tickets.len(), 1);
}

#[test]
fn upload_cancel_twice_is_no_error() {
    let mut tickets = Tickets::new();
    let body = upload_body("SAVE", vec![declared("/a", 10, "h1")]);
    upload_begin_with(&mut tickets, &body, None, ID).unwrap();
    tickets.register(Ticket { id: 5, title_id: 1, kind: TicketType::UPLOAD, container: Container::SAVE });
    assert_eq!(upload_cancel(&mut tickets, ID_TEXT), Ok(format!("./tickets/{}", ID_TEXT)));
    assert_eq!(tickets.len(), 1);
    assert_eq!(upload_cancel(&mut tickets, ID_TEXT), Ok(format!("./tickets/{}", ID_TEXT)));
    assert_eq!(tickets.len(), 1);
    assert_eq!(upload_file(&tickets, ID_TEXT, "/a"), Err(TransferError::InvalidTicket));
    assert_eq!(upload_cancel(&mut tickets, "garbage"), Err(TransferError::InvalidTicket));
    assert_eq!(tickets.len(), 1);
}

#[test]
fn download_begin_refuses_unknown_container_before_anything_is_opened() {
    let mut tickets = Tickets::new();
    let body = download_body("cartridge", vec![]);
    let r = download_begin_with(&mut tickets, &body, Some(&vec![held("/a", 1, "h")]), ID);
    assert!(matches!(r, Err(TransferError::InvalidContainer)));
    assert_eq!(tickets.len(), 0);
    let r = download_begin(&mut tickets, &body, None);
    assert!(matches!(r, Err(TransferError::InvalidContainer)));
    assert_eq!(tickets.len(), 0);
}

#[test]
fn download_begin_without_container_has_nothing_to_offer() {
    let mut tickets = Tickets::new();
    let body = download_body("SAVE", vec![declared("/a", 1, "h")]);
    assert!(matches!(download_begin_with(&mut tickets, &body, None, ID), Ok(None)));
    assert_eq!(tickets.len(), 0);
}

#[test]
fn download_begin_lists_a_verdict_for_each_path() {
    let mut tickets = Tickets::new();
    let body = download_body("save", vec![declared("/a", 10, "h1"), declared("/c", 5, "h3")]);
    let snapshot = vec![held("/a", 10, "h1"), held("/b", 20, "h2")];
    let r = download_begin_with(&mut tickets, &body, Some(&snapshot), ID).unwrap().unwrap();
    assert_eq!(r.ticket, ID_TEXT);
    let verdicts: Vec<(&str, DownloadAction)> =
        r.files.iter().map(|f| (f.path.as_str(), f.action)).collect();
    assert_eq!(
        verdicts,
        vec![
            ("/a", DownloadAction::KEEP),
            ("/c", DownloadAction::REMOVE),
            ("/b", DownloadAction::CREATE)
        ]
    );
    assert_eq!(
        tickets.lookup(ID),
        Ok(Ticket { id: ID, title_id: 0x2a, kind: TicketType::DOWNLOAD, container: Container::SAVE })
    );
}

#[test]
fn download_begin_reports_nothing_to_do_and_opens_no_ticket() {
    let mut tickets = Tickets::new();
    let body = download_body("SAVE", vec![declared("/a", 10, "h1")]);
    let snapshot = vec![held("/a", 10, "h1")];
    assert!(matches!(download_begin_with(&mut tickets, &body, Some(&snapshot), ID), Ok(None)));
    assert_eq!(tickets.len(), 0);
    assert!(matches!(download_begin(&mut tickets, &body, Some(&snapshot)), Ok(None)));
    let empty = download_body("SAVE", vec![]);
    assert!(matches!(download_begin_with(&mut tickets, &empty, Some(&vec![]), ID), Ok(None)));
    assert_eq!(tickets.len(), 0);
}

#[test]
fn download_begin_of_an_empty_container_removes_what_the_client_has() {
    let mut tickets = Tickets::new();
    let body = download_body("SAVE", vec![declared("/a", 10, "h1")]);
    let r = download_begin_with(&mut tickets, &body, Some(&vec![]), ID).unwrap().unwrap();
    assert_eq!(r.files.len(), 1);
    assert_eq!(r.files[0].path, "/a");
    assert_eq!(r.files[0].action, DownloadAction::REMOVE);
    assert_eq!(tickets.len(), 1);
}

#[test]
fn download_begin_draws_a_fresh_ticket() {
    let mut tickets = Tickets::new();
    let body = download_body("EXTDATA", vec![]);
    let snapshot = vec![held("/a", 10, "h1")];
    let r = download_begin(&mut tickets, &body, Some(&snapshot)).unwrap().unwrap();
    let id = parse_ticket(&r.ticket).unwrap();
    assert_eq!((id >> 76) & 0xf, 4);
    assert_eq!(tickets.lookup(id).unwrap().kind, TicketType::DOWNLOAD);
    assert_eq!(tickets.lookup(id).unwrap().container, Container::EXTDATA);
    assert_eq!(r.files.len(), 1);
    assert_eq!(r.files[0].action, DownloadAction::CREATE);
}

#[test]
fn all_keep_is_detected() {
    let same = save_sync::diff::diff_for_download(&vec![held("/a", 1, "h")], &vec![declared("/a", 1, "h")]);
    assert!(is_all_keep(&same));
    let other = save_sync::diff::diff_for_download(&vec![held("/a", 1, "h")], &vec![declared("/a", 2, "h")]);
    assert!(!is_all_keep(&other));
    assert!(is_all_keep(&vec![]));
}

#[test]
fn download_file_is_served_from_the_snapshot() {
    let mut tickets = Tickets::new();
    let body = download_body("SAVE", vec![]);
    download_begin_with(&mut tickets, &body, Some(&vec![held("/d/a", 10, "h1")]), ID).unwrap();
    assert_eq!(download_file(&tickets, ID_TEXT, "/d/a"), Ok(format!("./tickets/{}/d/a", ID_TEXT)));
    assert_eq!(tickets.len(), 1);
}

#[test]
fn download_file_refuses_unknown_and_foreign_tickets() {
    let mut tickets = Tickets::new();
    tickets.register(Ticket { id: ID, title_id: 1, kind: TicketType::UPLOAD, container: Container::SAVE });
    assert_eq!(download_file(&tickets, ID_TEXT, "/a"), Err(TransferError::WrongKind));
    assert_eq!(download_file(&tickets, &ticket_text(5), "/a"), Err(TransferError::InvalidTicket));
    assert_eq!(download_file(&tickets, "", "/a"), Err(TransferError::InvalidTicket));
}

#[test]
fn download_end_twice_is_no_error() {
    let mut tickets = Tickets::new();
    let body = download_body("SAVE", vec![]);
    download_begin_with(&mut tickets, &body, Some(&vec![held("/a", 10, "h1")]), ID).unwrap();
    assert_eq!(download_end(&mut tickets, ID_TEXT), Ok(format!("./tickets/{}", ID_TEXT)));
    assert_eq!(tickets.len(), 0);
    assert_eq!(download_end(&mut tickets, ID_TEXT), Ok(format!("./tickets/{}", ID_TEXT)));
    assert_eq!(download_file(&tickets, ID_TEXT, "/a"), Err(TransferError::InvalidTicket));
    assert_eq!(download_end(&mut tickets, "garbage"), Err(TransferError::InvalidTicket));
}

#[test]
fn tickets_of_concurrent_transfers_are_independent() {
    let mut tickets = Tickets::new();
    let up = upload_body("SAVE", vec![declared("/a", 10, "h1")]);
    let down = download_body("SAVE", vec![]);
    upload_begin_with(&mut tickets, &up, None, 1).unwrap();
    download_begin_with(&mut tickets, &down, Some(&vec![held("/a", 9, "h0")]), 2).unwrap();
    assert_eq!(tickets.len(), 2);
    upload_end(&mut tickets, "./data", &ticket_text(1)).unwrap();
    assert_eq!(tickets.len(), 1);
    assert_eq!(download_file(&tickets, &ticket_text(2), "/a"), Ok(format!("./tickets/{}/a", ticket_text(2))));
}
