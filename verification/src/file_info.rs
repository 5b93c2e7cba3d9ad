//! File descriptions exchanged with a client, the server's own listing of a
//! container, and the content digest that decides whether two files are the
//! same.

use vstd::prelude::*;

verus! {

/// The lower-case hexadecimal SHA-256 digest of a byte string, as the
/// `sha256` crate computes it.
pub uninterp spec fn sha256_hex(content: Seq<u8>) -> Seq<char>;

/// Digest of a byte string.
///
/// Trusted: `sha256::digest` on a byte slice, which hashes the bytes with
/// SHA-256 and writes the 32 bytes of the result as lower-case hexadecimal.
/// The contract only gives that text its name: equal bytes have equal
/// digests.
#[verifier::external_body]
fn sha256_digest(content: &[u8]) -> (r: String)
    ensures
        r@ == sha256_hex(content@),
{
    sha256::digest(content)
}

/// The view of an optional text.
pub open spec fn opt_text(o: Option<String>) -> Option<Seq<char>> {
    match o {
        Some(s) => Some(s@),
        None => None,
    }
}

/// Copies an optional text.
pub fn clone_opt_text(o: &Option<String>) -> (r: Option<String>)
    ensures
        opt_text(r) == opt_text(*o),
{
    match o {
        Some(s) => Some(s.clone()),
        None => None,
    }
}

/// A file as a client declares it: where it lies in the container, how long
/// it is and, where the client knows it, its digest.
#[derive(Debug, Clone, PartialEq, Eq)]
pub struct ClientFileInfo {
    pub path: String,
    pub size: u64,
    pub hash: Option<String>,
}

/// The mathematical content of a `ClientFileInfo`.
pub struct ClientFileView {
    pub path: Seq<char>,
    pub size: u64,
    pub hash: Option<Seq<char>>,
}

impl View for ClientFileInfo {
    type V = ClientFileView;

    open spec fn view(&self) -> ClientFileView {
        ClientFileView { path: self.path@, size: self.size, hash: opt_text(self.hash) }
    }
}

impl ClientFileInfo {
    /// A declared file with the given path, length and digest.
    pub fn new(path: String, size: u64, hash: Option<String>) -> (r: ClientFileInfo)
        ensures
            r@ == (ClientFileView { path: path@, size: size, hash: opt_text(hash) }),
    {
        ClientFileInfo { path, size, hash }
    }

    /// A copy with the same content.
    pub fn duplicate(&self) -> (r: ClientFileInfo)
        ensures
            r@ == self@,
    {
        ClientFileInfo {
            path: self.path.clone(),
            size: self.size,
            hash: clone_opt_text(&self.hash),
        }
    }
}

/// A file as the server holds it in a container or a snapshot.
#[derive(Debug, Clone, PartialEq, Eq)]
pub struct ServerFile {
    pub path: String,
    pub size: u64,
    pub hash: String,
}

/// The mathematical content of a `ServerFile`.
pub struct ServerFileView {
    pub path: Seq<char>,
    pub size: u64,
    pub hash: Seq<char>,
}

impl View for ServerFile {
    type V = ServerFileView;

    open spec fn view(&self) -> ServerFileView {
        ServerFileView { path: self.path@, size: self.size, hash: self.hash@ }
    }
}

impl ServerFile {
    /// A held file with the given path, length and digest.
    pub fn new(path: String, size: u64, hash: String) -> (r: ServerFile)
        ensures
            r@ == (ServerFileView { path: path@, size: size, hash: hash@ }),
    {
        ServerFile { path, size, hash }
    }

    /// Describes a file from its content: its length in bytes and the digest
    /// of the bytes.
    pub fn describe(path: String, content: &[u8]) -> (r: ServerFile)
        ensures
            r@ == (ServerFileView {
                path: path@,
                size: content@.len() as u64,
                hash: sha256_hex(content@),
            }),
    {
        let size: u64 = content.len() as u64;
        ServerFile { path, size, hash: sha256_digest(content) }
    }
}

/// The digest by which the content of two files is compared.
pub fn file_hash(content: &[u8]) -> (r: String)
    ensures
        r@ == sha256_hex(content@),
{
    sha256_digest(content)
}

/// Whether a declared file and a held file have the same content: the same
/// length and the same digest.
pub open spec fn same_content(c: ClientFileView, s: ServerFileView) -> bool {
    c.size == s.size && c.hash == Some(s.hash)
}

/// Decides `same_content`, comparing the lengths before the digests.
pub fn has_same_content(c: &ClientFileInfo, s: &ServerFile) -> (r: bool)
    ensures
        r == same_content(c@, s@),
{
    if c.size != s.size {
        return false;
    }
    match &c.hash {
        Some(h) => *h == s.hash,
        None => false,
    }
}

/// What a client has to do with one path to reach the server's state.
#[derive(Clone, Copy, Debug, PartialEq, Eq, Structural)]
pub enum DownloadAction {
    CREATE,
    REPLACE,
    KEEP,
    REMOVE,
}

/// The verdict on one path, with the length and digest that go with it.
#[derive(Debug, Clone, PartialEq, Eq)]
pub struct DownloadFileInfo {
    pub path: String,
    pub action: DownloadAction,
    pub size: Option<u64>,
    pub hash: Option<String>,
}

/// The mathematical content of a `DownloadFileInfo`.
pub struct DownloadFileView {
    pub path: Seq<char>,
    pub action: DownloadAction,
    pub size: Option<u64>,
    pub hash: Option<Seq<char>>,
}

impl View for DownloadFileInfo {
    type V = DownloadFileView;

    open spec fn view(&self) -> DownloadFileView {
        DownloadFileView {
            path: self.path@,
            action: self.action,
            size: self.size,
            hash: opt_text(self.hash),
        }
    }
}

impl DownloadFileInfo {
    /// A copy with the same content.
    pub fn duplicate(&self) -> (r: DownloadFileInfo)
        ensures
            r@ == self@,
    {
        DownloadFileInfo {
            path: self.path.clone(),
            action: self.action,
            size: self.size,
            hash: clone_opt_text(&self.hash),
        }
    }
}

/// The views of a list of declared files.
pub open spec fn client_views(files: Seq<ClientFileInfo>) -> Seq<ClientFileView> {
    files.map_values(|f: ClientFileInfo| f@)
}

/// The views of a list of held files.
pub open spec fn server_views(files: Seq<ServerFile>) -> Seq<ServerFileView> {
    files.map_values(|f: ServerFile| f@)
}

/// The views of the held files handed to a begin operation.
pub open spec fn held_views(held: Option<&Vec<ServerFile>>) -> Option<Seq<ServerFileView>> {
    match held {
        Some(files) => Some(server_views(files@)),
        None => None,
    }
}

/// The views of a list of verdicts.
pub open spec fn action_views(files: Seq<DownloadFileInfo>) -> Seq<DownloadFileView> {
    files.map_values(|f: DownloadFileInfo| f@)
}

/// The views of a list of texts.
pub open spec fn text_views(texts: Seq<String>) -> Seq<Seq<char>> {
    texts.map_values(|t: String| t@)
}

} // verus!
