//! The upload workflow: a client declares what it has, sends the files the
//! server lacks into the ticket's staging directory, and commits or
//! cancels.
//!
//! The functions here decide; the caller touches the disk. It lists the
//! container before it begins, creates the staging directory of the ticket
//! that was opened, writes each file where `upload_file` says, and on
//! `upload_end` moves the staged files into the container.

use vstd::prelude::*;
use crate::container::{parse_kind, Container};
use crate::diff::{diff_for_upload, upload_needed};
use crate::file_info::{
    client_views, held_views, server_views, text_views, ClientFileInfo, ClientFileView,
    ServerFile, ServerFileView,
};
use crate::staging::{
    claim_ticket, claimed_ticket, close_ticket, closed_dir, staged_file, staged_path,
    table_without, ticket_dir, ticket_path,
};
use crate::ticket::{
    fresh_ticket_id, hyphenated_text, is_random_id, parsed_uuid, ticket_text, Ticket, TicketType,
    Tickets, TransferError,
};
use crate::title::{container_dir, container_path_of};

verus! {

/// What a client sends to begin an upload.
#[derive(Debug, Clone, PartialEq, Eq)]
pub struct BeginBody {
    pub id: u64,
    pub container: String,
    pub files: Vec<ClientFileInfo>,
}

/// What the server answers when an upload has begun: the ticket and the
/// paths of the files it needs.
#[derive(Debug, Clone, PartialEq, Eq)]
pub struct BeginResponse {
    pub ticket: String,
    pub files: Vec<String>,
}

/// How beginning an upload ends.
pub enum UploadOutcome {
    /// The request is refused.
    Refused(TransferError),
    /// The server already holds everything that was declared.
    NothingToDo,
    /// A ticket is opened, and these paths are to be sent.
    Transfer { ticket: Ticket, files: Seq<Seq<char>> },
}

/// The held files to compare with: those of the container, or none where
/// the container does not exist.
pub open spec fn held_or_nothing(held: Option<Seq<ServerFileView>>) -> Seq<ServerFileView> {
    match held {
        Some(files) => files,
        None => Seq::empty(),
    }
}

/// How beginning an upload ends, for a request, the files held and the
/// identifier drawn for the ticket.
///
/// An unknown container kind is refused, then an empty list of files. If
/// the server needs none of the declared files there is nothing to do.
/// Else an upload ticket is opened for the title and the kind.
pub open spec fn upload_outcome(
    title_id: u64,
    container: Seq<char>,
    client: Seq<ClientFileView>,
    held: Option<Seq<ServerFileView>>,
    id: u128,
) -> UploadOutcome {
    match parse_kind(container) {
        None => UploadOutcome::Refused(TransferError::InvalidContainer),
        Some(kind) => if client.len() == 0 {
            UploadOutcome::Refused(TransferError::InvalidRequest)
        } else {
            let files = upload_needed(client, held_or_nothing(held));
            if files.len() == 0 {
                UploadOutcome::NothingToDo
            } else {
                UploadOutcome::Transfer {
                    ticket: Ticket {
                        id: id,
                        title_id: title_id,
                        kind: TicketType::UPLOAD,
                        container: kind,
                    },
                    files: files,
                }
            }
        },
    }
}

/// The table of tickets after an upload has begun: only a transfer opens a
/// ticket.
pub open spec fn table_after_upload(table: Map<u128, Ticket>, outcome: UploadOutcome) -> Map<
    u128,
    Ticket,
> {
    match outcome {
        UploadOutcome::Transfer { ticket, files } => table.insert(ticket.id, ticket),
        _ => table,
    }
}

/// Whether a returned value tells an outcome: the response of a transfer
/// names the ticket by its hyphenated text and lists the needed paths.
pub open spec fn tells_upload(
    r: Result<Option<BeginResponse>, TransferError>,
    outcome: UploadOutcome,
) -> bool {
    match outcome {
        UploadOutcome::Refused(e) => r == Err::<Option<BeginResponse>, TransferError>(e),
        UploadOutcome::NothingToDo => r matches Ok(None),
        UploadOutcome::Transfer { ticket, files } => r matches Ok(Some(resp)) && resp.ticket@
            == hyphenated_text(ticket.id) && parsed_uuid(resp.ticket@) == Some(ticket.id)
            && text_views(resp.files@) == files,
    }
}

/// An unknown container kind is refused before anything else is looked
/// at, and no ticket is opened.
pub proof fn lemma_upload_refuses_unknown_container(
    table: Map<u128, Ticket>,
    title_id: u64,
    container: Seq<char>,
    client: Seq<ClientFileView>,
    held: Option<Seq<ServerFileView>>,
    id: u128,
)
    requires
        parse_kind(container).is_none(),
    ensures
        upload_outcome(title_id, container, client, held, id) == UploadOutcome::Refused(
            TransferError::InvalidContainer,
        ),
        table_after_upload(table, upload_outcome(title_id, container, client, held, id)) == table,
{
}

/// Beginning an upload never answers with an empty list of files: where
/// the server needs none, the outcome is that there is nothing to do, and
/// no ticket is opened.
pub proof fn lemma_upload_transfer_is_not_empty(
    table: Map<u128, Ticket>,
    title_id: u64,
    container: Seq<char>,
    client: Seq<ClientFileView>,
    held: Option<Seq<ServerFileView>>,
    id: u128,
)
    ensures
        match upload_outcome(title_id, container, client, held, id) {
            UploadOutcome::Transfer { ticket, files } => files.len() > 0 && files == upload_needed(
                client,
                held_or_nothing(held),
            ),
            _ => table_after_upload(table, upload_outcome(title_id, container, client, held, id))
                == table,
        },
        parse_kind(container).is_some() && client.len() > 0 && upload_needed(
            client,
            held_or_nothing(held),
        ).len() == 0 ==> upload_outcome(title_id, container, client, held, id)
            == UploadOutcome::NothingToDo,
{
}

/// Begins an upload under a given ticket identifier.
///
/// `held` lists the files of the container, and is `None` where the
/// container does not exist. `Ok(None)` says that there is nothing to
/// synchronise. A ticket is opened only when files are to be sent.
pub fn upload_begin_with(
    tickets: &mut Tickets,
    body: &BeginBody,
    held: Option<&Vec<ServerFile>>,
    id: u128,
) -> (r: Result<Option<BeginResponse>, TransferError>)
    ensures
        tells_upload(
            r,
            upload_outcome(body.id, body.container@, client_views(body.files@), held_views(held), id),
        ),
        final(tickets)@ == table_after_upload(
            old(tickets)@,
            upload_outcome(body.id, body.container@, client_views(body.files@), held_views(held), id),
        ),
{
    let kind = match Container::from_str(body.container.as_str()) {
        Some(kind) => kind,
        None => {
            return Err(TransferError::InvalidContainer);
        },
    };
    if body.files.len() == 0 {
        return Err(TransferError::InvalidRequest);
    }
    let files = match held {
        Some(listing) => diff_for_upload(listing, &body.files),
        None => {
            let nothing: Vec<ServerFile> = Vec::new();
            proof {
                assert(server_views(nothing@) =~= Seq::<ServerFileView>::empty());
            }
            diff_for_upload(&nothing, &body.files)
        },
    };
    if files.len() == 0 {
        return Ok(None);
    }
    tickets.register(Ticket { id, title_id: body.id, kind: TicketType::UPLOAD, container: kind });
    Ok(Some(BeginResponse { ticket: ticket_text(id), files }))
}

/// Begins an upload under a fresh random ticket identifier.
///
/// The outcome is that of `upload_begin_with` for some random identifier.
pub fn upload_begin(tickets: &mut Tickets, body: &BeginBody, held: Option<&Vec<ServerFile>>) -> (r:
    Result<Option<BeginResponse>, TransferError>)
    ensures
        exists|id: u128|
            #[trigger] is_random_id(id) && tells_upload(
                r,
                upload_outcome(
                    body.id,
                    body.container@,
                    client_views(body.files@),
                    held_views(held),
                    id,
                ),
            ) && final(tickets)@ == table_after_upload(
                old(tickets)@,
                upload_outcome(
                    body.id,
                    body.container@,
                    client_views(body.files@),
                    held_views(held),
                    id,
                ),
            ),
{
    let id = fresh_ticket_id();
    upload_begin_with(tickets, body, held, id)
}

/// Where the bytes of one uploaded file are to be written: under the
/// staging directory of the upload ticket that `ticket` names. The table
/// is left as it is, so a failed write can be tried again.
pub fn upload_file(tickets: &Tickets, ticket: &str, path: &str) -> (r: Result<String, TransferError>)
    ensures
        match claimed_ticket(tickets@, ticket@, TicketType::UPLOAD) {
            Ok(t) => r matches Ok(target) && target@ == staged_file(t.id, path@),
            Err(e) => r == Err::<String, TransferError>(e),
        },
{
    match claim_ticket(tickets, ticket, TicketType::UPLOAD) {
        Ok(t) => Ok(staged_path(t.id, path)),
        Err(e) => Err(e),
    }
}

/// What committing an upload asks of the caller: move every file under
/// `staging` to the same relative path under `container`, overwriting what
/// is there and leaving the rest of the container alone, then discard
/// `staging`.
#[derive(Debug, Clone, PartialEq, Eq)]
pub struct CommitPlan {
    pub staging: String,
    pub container: String,
}

/// Commits an upload: closes the upload ticket that `ticket` names and
/// says what is to be moved where. The ticket is closed whether or not the
/// move then succeeds. A text that names no open upload ticket is refused
/// and changes nothing.
pub fn upload_end(tickets: &mut Tickets, root: &str, ticket: &str) -> (r: Result<
    CommitPlan,
    TransferError,
>)
    ensures
        match claimed_ticket(old(tickets)@, ticket@, TicketType::UPLOAD) {
            Ok(t) => r matches Ok(plan) && plan.staging@ == ticket_dir(t.id) && plan.container@
                == container_dir(root@, t.title_id, t.container) && final(tickets)@ == old(
                tickets,
            )@.remove(t.id),
            Err(e) => r == Err::<CommitPlan, TransferError>(e) && final(tickets)@ == old(tickets)@,
        },
{
    match claim_ticket(tickets, ticket, TicketType::UPLOAD) {
        Err(e) => Err(e),
        Ok(t) => {
            tickets.remove(t.id);
            Ok(
                CommitPlan {
                    staging: ticket_path(t.id),
                    container: container_path_of(root, t.title_id, t.container),
                },
            )
        },
    }
}

/// Cancels an upload: closes the ticket that `ticket` names and returns
/// the staging directory to discard. Cancelling again is no error.
pub fn upload_cancel(tickets: &mut Tickets, ticket: &str) -> (r: Result<String, TransferError>)
    ensures
        final(tickets)@ == table_without(old(tickets)@, ticket@),
        match closed_dir(ticket@) {
            Ok(dir) => r matches Ok(d) && d@ == dir,
            Err(e) => r == Err::<String, TransferError>(e),
        },
{
    close_ticket(tickets, ticket)
}

} // verus!
