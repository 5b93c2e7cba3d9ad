//! Ticket-based synchronisation of title containers: container addressing,
//! the ticket registry, the content diff and the upload and download
//! workflows, with their contracts.

pub mod text;
pub mod container;
pub mod file_info;
pub mod diff;
pub mod holdings;
pub mod ticket;
pub mod title;
pub mod staging;
pub mod upload;
pub mod download;
pub mod listing;
pub mod save;
pub mod extdata;
pub mod quit;
