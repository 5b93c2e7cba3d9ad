//! The download workflow: the server snapshots a container into the
//! ticket's staging directory, tells the client what to do with each path,
//! serves files from the snapshot, and discards it at the end.
//!
//! The functions here decide; the caller touches the disk. To serve what
//! the verdicts speak of, it draws the identifier with `fresh_ticket_id`,
//! copies the container into the staging directory of that identifier,
//! lists the copy and calls `download_begin_with`. It reads each file from
//! where `download_file` says, and discards the directory that
//! `download_end` returns.

use vstd::prelude::*;
use crate::container::{parse_kind, Container};
use crate::diff::{all_keep, diff_for_download, download_plan};
use crate::file_info::{
    action_views, client_views, held_views, ClientFileInfo, ClientFileView, DownloadAction, DownloadFileInfo,
    DownloadFileView, ServerFile, ServerFileView,
};
use crate::staging::{
    claim_ticket, claimed_ticket, close_ticket, closed_dir, staged_file, staged_path,
    table_without,
};
use crate::ticket::{
    fresh_ticket_id, hyphenated_text, is_random_id, parsed_uuid, ticket_text, Ticket, TicketType,
    Tickets, TransferError,
};

verus! {

/// What a client sends to begin a download: the title, the kind of
/// container and the files it already has.
#[derive(Debug, Clone, PartialEq, Eq)]
pub struct BeginBody {
    pub id: u64,
    pub container: String,
    pub existing_files: Vec<ClientFileInfo>,
}

/// What the server answers when a download has begun: the ticket and the
/// verdict on each path.
#[derive(Debug, Clone, PartialEq, Eq)]
pub struct BeginResponse {
    pub ticket: String,
    pub files: Vec<DownloadFileInfo>,
}

/// How beginning a download ends.
pub enum DownloadOutcome {
    /// The request is refused.
    Refused(TransferError),
    /// The container does not exist, or the client has what it holds.
    NothingToDo,
    /// A ticket is opened, and these verdicts are to be carried out.
    Transfer { ticket: Ticket, files: Seq<DownloadFileView> },
}

/// How beginning a download ends, for a request, the snapshot and the
/// identifier drawn for the ticket.
///
/// An unknown container kind is refused. Without a container, or where
/// every verdict is KEEP, there is nothing to do. Else a download ticket is
/// opened for the title and the kind.
pub open spec fn download_outcome(
    title_id: u64,
    container: Seq<char>,
    client: Seq<ClientFileView>,
    snapshot: Option<Seq<ServerFileView>>,
    id: u128,
) -> DownloadOutcome {
    match parse_kind(container) {
        None => DownloadOutcome::Refused(TransferError::InvalidContainer),
        Some(kind) => match snapshot {
            None => DownloadOutcome::NothingToDo,
            Some(held) => {
                let files = download_plan(client, held);
                if all_keep(files) {
                    DownloadOutcome::NothingToDo
                } else {
                    DownloadOutcome::Transfer {
                        ticket: Ticket {
                            id: id,
                            title_id: title_id,
                            kind: TicketType::DOWNLOAD,
                            container: kind,
                        },
                        files: files,
                    }
                }
            },
        },
    }
}

/// The table of tickets after a download has begun: only a transfer opens
/// a ticket.
pub open spec fn table_after_download(table: Map<u128, Ticket>, outcome: DownloadOutcome) -> Map<
    u128,
    Ticket,
> {
    match outcome {
        DownloadOutcome::Transfer { ticket, files } => table.insert(ticket.id, ticket),
        _ => table,
    }
}

/// Whether a returned value tells an outcome: the response of a transfer
/// names the ticket by its hyphenated text and lists the verdicts.
pub open spec fn tells_download(
    r: Result<Option<BeginResponse>, TransferError>,
    outcome: DownloadOutcome,
) -> bool {
    match outcome {
        DownloadOutcome::Refused(e) => r == Err::<Option<BeginResponse>, TransferError>(e),
        DownloadOutcome::NothingToDo => r matches Ok(None),
        DownloadOutcome::Transfer { ticket, files } => r matches Ok(Some(resp)) && resp.ticket@
            == hyphenated_text(ticket.id) && parsed_uuid(resp.ticket@) == Some(ticket.id)
            && action_views(resp.files@) == files,
    }
}

/// An unknown container kind is refused before anything else is looked
/// at, and no ticket is opened.
pub proof fn lemma_download_refuses_unknown_container(
    table: Map<u128, Ticket>,
    title_id: u64,
    container: Seq<char>,
    client: Seq<ClientFileView>,
    snapshot: Option<Seq<ServerFileView>>,
    id: u128,
)
    requires
        parse_kind(container).is_none(),
    ensures
        download_outcome(title_id, container, client, snapshot, id) == DownloadOutcome::Refused(
            TransferError::InvalidContainer,
        ),
        table_after_download(table, download_outcome(title_id, container, client, snapshot, id))
            == table,
{
}

/// Beginning a download never answers with verdicts that are all KEEP:
/// there the outcome is that there is nothing to do, and no ticket is
/// opened.
pub proof fn lemma_download_transfer_has_work(
    table: Map<u128, Ticket>,
    title_id: u64,
    container: Seq<char>,
    client: Seq<ClientFileView>,
    snapshot: Option<Seq<ServerFileView>>,
    id: u128,
)
    ensures
        match download_outcome(title_id, container, client, snapshot, id) {
            DownloadOutcome::Transfer { ticket, files } => !all_keep(files) && snapshot.is_some()
                && files == download_plan(client, snapshot.unwrap()),
            _ => table_after_download(
                table,
                download_outcome(title_id, container, client, snapshot, id),
            ) == table,
        },
        parse_kind(container).is_some() && snapshot.is_some() && all_keep(
            download_plan(client, snapshot.unwrap()),
        ) ==> download_outcome(title_id, container, client, snapshot, id)
            == DownloadOutcome::NothingToDo,
{
}

/// Decides `all_keep` for a list of verdicts.
pub fn is_all_keep(actions: &Vec<DownloadFileInfo>) -> (r: bool)
    ensures
        r == all_keep(action_views(actions@)),
{
    let ghost views = action_views(actions@);
    let mut i: usize = 0;
    while i < actions.len()
        invariant
            i <= actions.len(),
            views == action_views(actions@),
            forall|k: int| 0 <= k < i ==> (#[trigger] views[k]).action == DownloadAction::KEEP,
        decreases actions.len() - i,
    {
        match actions[i].action {
            DownloadAction::KEEP => {},
            _ => {
                assert(views[i as int].action != DownloadAction::KEEP);
                return false;
            },
        }
        i += 1;
    }
    true
}

/// Begins a download under a given ticket identifier.
///
/// `snapshot` lists the files of the snapshot taken of the container, and
/// is `None` where the container does not exist. `Ok(None)` says that
/// there is nothing to synchronise. A ticket is opened only when there is
/// something to do.
pub fn download_begin_with(
    tickets: &mut Tickets,
    body: &BeginBody,
    snapshot: Option<&Vec<ServerFile>>,
    id: u128,
) -> (r: Result<Option<BeginResponse>, TransferError>)
    ensures
        tells_download(
            r,
            download_outcome(
                body.id,
                body.container@,
                client_views(body.existing_files@),
                held_views(snapshot),
                id,
            ),
        ),
        final(tickets)@ == table_after_download(
            old(tickets)@,
            download_outcome(
                body.id,
                body.container@,
                client_views(body.existing_files@),
                held_views(snapshot),
                id,
            ),
        ),
{
    let kind = match Container::from_str(body.container.as_str()) {
        Some(kind) => kind,
        None => {
            return Err(TransferError::InvalidContainer);
        },
    };
    let held = match snapshot {
        Some(held) => held,
        None => {
            return Ok(None);
        },
    };
    let files = diff_for_download(held, &body.existing_files);
    if is_all_keep(&files) {
        return Ok(None);
    }
    tickets.register(Ticket { id, title_id: body.id, kind: TicketType::DOWNLOAD, container: kind });
    Ok(Some(BeginResponse { ticket: ticket_text(id), files }))
}

/// Begins a download under a fresh random ticket identifier.
///
/// The outcome is that of `download_begin_with` for some random
/// identifier.
pub fn download_begin(tickets: &mut Tickets, body: &BeginBody, snapshot: Option<&Vec<ServerFile>>)
    -> (r: Result<Option<BeginResponse>, TransferError>)
    ensures
        exists|id: u128|
            #[trigger] is_random_id(id) && tells_download(
                r,
                download_outcome(
                    body.id,
                    body.container@,
                    client_views(body.existing_files@),
                    held_views(snapshot),
                    id,
                ),
            ) && final(tickets)@ == table_after_download(
                old(tickets)@,
                download_outcome(
                    body.id,
                    body.container@,
                    client_views(body.existing_files@),
                    held_views(snapshot),
                    id,
                ),
            ),
{
    let id = fresh_ticket_id();
    download_begin_with(tickets, body, snapshot, id)
}

/// Where one file of a download is to be read from: under the staging
/// directory of the download ticket that `ticket` names, so from the
/// snapshot and never from the live container.
pub fn download_file(tickets: &Tickets, ticket: &str, path: &str) -> (r: Result<
    String,
    TransferError,
>)
    ensures
        match claimed_ticket(tickets@, ticket@, TicketType::DOWNLOAD) {
            Ok(t) => r matches Ok(source) && source@ == staged_file(t.id, path@),
            Err(e) => r == Err::<String, TransferError>(e),
        },
{
    match claim_ticket(tickets, ticket, TicketType::DOWNLOAD) {
        Ok(t) => Ok(staged_path(t.id, path)),
        Err(e) => Err(e),
    }
}

/// Ends a download: closes the ticket that `ticket` names and returns the
/// staging directory, with the snapshot, to discard. Ending again is no
/// error.
pub fn download_end(tickets: &mut Tickets, ticket: &str) -> (r: Result<String, TransferError>)
    ensures
        final(tickets)@ == table_without(old(tickets)@, ticket@),
        match closed_dir(ticket@) {
            Ok(dir) => r matches Ok(d) && d@ == dir,
            Err(e) => r == Err::<String, TransferError>(e),
        },
{
    close_ticket(tickets, ticket)
}

} // verus!
