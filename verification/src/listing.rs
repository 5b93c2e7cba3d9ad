//! Listings of what lies on disk: the files found under a title's
//! directory, described by path, length and digest, and the titles found
//! under the data roots.

use vstd::prelude::*;
use crate::diff::first_occurrences;
use crate::file_info::{server_views, sha256_hex, text_views, ServerFile, ServerFileView};
use crate::text::starts_with;
use crate::title::{hex_upper, parse_hex, parse_title_id, title_dir_name};

verus! {

/// A file found on disk: the components of its path, and its content.
#[derive(Debug, Clone, PartialEq, Eq)]
pub struct FoundFile {
    pub components: Vec<String>,
    pub content: Vec<u8>,
}

/// The mathematical content of a `FoundFile`.
pub struct FoundFileView {
    pub components: Seq<Seq<char>>,
    pub content: Seq<u8>,
}

impl View for FoundFile {
    type V = FoundFileView;

    open spec fn view(&self) -> FoundFileView {
        FoundFileView { components: text_views(self.components@), content: self.content@ }
    }
}

/// The views of a list of found files.
pub open spec fn found_views(files: Seq<FoundFile>) -> Seq<FoundFileView> {
    files.map_values(|f: FoundFile| f@)
}

/// The components that follow the first component equal to `name`; none
/// if no component equals it.
pub open spec fn after_name(components: Seq<Seq<char>>, name: Seq<char>) -> Seq<Seq<char>>
    decreases components.len(),
{
    if components.len() == 0 {
        Seq::empty()
    } else if components[0] == name {
        components.subrange(1, components.len() as int)
    } else {
        after_name(components.subrange(1, components.len() as int), name)
    }
}

/// Components written as one path, with `/` between them.
pub open spec fn slash_joined(parts: Seq<Seq<char>>) -> Seq<char>
    decreases parts.len(),
{
    if parts.len() == 0 {
        Seq::empty()
    } else if parts.len() == 1 {
        parts[0]
    } else {
        slash_joined(parts.drop_last()).push('/') + parts.last()
    }
}

/// The path under which a found file is listed for a title: `/`, then the
/// components below the title's directory.
pub open spec fn listed_path(components: Seq<Seq<char>>, title_id: u64) -> Seq<char> {
    seq!['/'] + slash_joined(after_name(components, hex_upper(title_id as nat)))
}

/// The entry of a found file in the listing of a title.
pub open spec fn listed_file(file: FoundFileView, title_id: u64) -> ServerFileView {
    ServerFileView {
        path: listed_path(file.components, title_id),
        size: file.content.len() as u64,
        hash: sha256_hex(file.content),
    }
}

/// The listing of a title: one entry for each found file, in order.
pub open spec fn listed_files(files: Seq<FoundFileView>, title_id: u64) -> Seq<ServerFileView> {
    files.map_values(|f: FoundFileView| listed_file(f, title_id))
}

/// The path under which a found file is listed for a title.
pub fn relative_path(components: &Vec<String>, title_id: u64) -> (path: String)
    ensures
        path@ == listed_path(text_views(components@), title_id),
{
    let name = title_dir_name(title_id);
    let ghost parts = text_views(components@);
    let n: usize = components.len();
    let mut k: usize = 0;
    proof {
        assert(parts.subrange(0, n as int) =~= parts);
    }
    while k < n && components[k] != name
        invariant
            k <= n,
            n == components.len(),
            parts == text_views(components@),
            name@ == hex_upper(title_id as nat),
            after_name(parts, name@) == after_name(parts.subrange(k as int, n as int), name@),
        decreases n - k,
    {
        proof {
            let tail = parts.subrange(k as int, n as int);
            assert(tail[0] == components[k as int]@);
            assert(tail.subrange(1, tail.len() as int) =~= parts.subrange(k + 1, n as int));
        }
        k += 1;
    }
    let start: usize = if k < n {
        k + 1
    } else {
        n
    };
    let ghost rest = parts.subrange(start as int, n as int);
    proof {
        let tail = parts.subrange(k as int, n as int);
        if k < n {
            assert(tail[0] == components[k as int]@);
            assert(tail.subrange(1, tail.len() as int) =~= rest);
        }
        assert(after_name(parts, name@) == rest);
    }
    let mut path = String::from_str("/");
    proof {
        reveal_strlit("/");
        assert(path@ =~= seq!['/'] + slash_joined(rest.subrange(0, 0)));
    }
    let mut j: usize = start;
    while j < n
        invariant
            start <= j <= n,
            n == components.len(),
            parts == text_views(components@),
            rest == parts.subrange(start as int, n as int),
            path@ == seq!['/'] + slash_joined(rest.subrange(0, j - start)),
        decreases n - j,
    {
        proof {
            let seen = rest.subrange(0, j - start);
            let next = rest.subrange(0, j - start + 1);
            assert(next.drop_last() =~= seen);
            assert(next.last() == components[j as int]@);
        }
        if j > start {
            path.push('/');
        }
        path.append(components[j].as_str());
        proof {
            assert(path@ =~= seq!['/'] + slash_joined(rest.subrange(0, j - start + 1)));
        }
        j += 1;
    }
    proof {
        assert(rest.subrange(0, j - start) =~= rest);
    }
    path
}

/// Lists the files found under a title's directory: each with its path
/// below that directory, its length in bytes and its digest.
pub fn list_files(title_id: u64, files: &Vec<FoundFile>) -> (r: Vec<ServerFile>)
    ensures
        server_views(r@) == listed_files(found_views(files@), title_id),
{
    let mut out: Vec<ServerFile> = Vec::new();
    let mut i: usize = 0;
    while i < files.len()
        invariant
            i <= files.len(),
            out.len() == i,
            forall|k: int| 0 <= k < i ==> (#[trigger] out[k])@ == listed_file(files[k]@, title_id),
        decreases files.len() - i,
    {
        let path = relative_path(&files[i].components, title_id);
        out.push(ServerFile::describe(path, files[i].content.as_slice()));
        i += 1;
    }
    proof {
        assert(server_views(out@) =~= listed_files(found_views(files@), title_id));
    }
    out
}

/// The path of a file below a root: what follows the root in the file's
/// path, if the path begins with the root.
pub open spec fn below_root(root: Seq<char>, path: Seq<char>) -> Option<Seq<char>> {
    if starts_with(path, root) {
        Some(path.subrange(root.len() as int, path.len() as int))
    } else {
        None
    }
}

/// The path of a file below a root.
pub fn strip_root(root: &str, path: &str) -> (r: Option<String>)
    ensures
        match below_root(root@, path@) {
            Some(rest) => r matches Some(text) && text@ == rest,
            None => r is None,
        },
{
    let m: usize = root.unicode_len();
    let n: usize = path.unicode_len();
    if m > n {
        return None;
    }
    let mut i: usize = 0;
    while i < m
        invariant
            i <= m <= n,
            m == root@.len(),
            n == path@.len(),
            forall|k: int| 0 <= k < i ==> root@[k] == path@[k],
        decreases m - i,
    {
        if root.get_char(i) != path.get_char(i) {
            proof {
                assert(path@.subrange(0, m as int)[i as int] != root@[i as int]);
            }
            return None;
        }
        i += 1;
    }
    proof {
        assert(path@.subrange(0, m as int) =~= root@);
    }
    Some(String::from_str(path.substring_char(m, n)))
}

/// Describes a file found under a root by its path below the root, its
/// length and its digest. `None` if the file does not lie under the root.
pub fn describe_below(root: &str, path: &str, content: &[u8]) -> (r: Option<ServerFile>)
    ensures
        match below_root(root@, path@) {
            Some(rest) => r matches Some(file) && file@ == (ServerFileView {
                path: rest,
                size: content@.len() as u64,
                hash: sha256_hex(content@),
            }),
            None => r is None,
        },
{
    match strip_root(root, path) {
        Some(rest) => Some(ServerFile::describe(rest, content)),
        None => None,
    }
}

/// The identifiers that a list of directory names writes, in order, if
/// every name writes one.
pub open spec fn named_ids(names: Seq<Seq<char>>) -> Option<Seq<u64>> {
    if forall|i: int| 0 <= i < names.len() ==> parse_hex(#[trigger] names[i]).is_some() {
        Some(names.map_values(|n: Seq<char>| parse_hex(n).unwrap()))
    } else {
        None
    }
}

/// Whether a value is in a list.
fn has_id(ids: &Vec<u64>, id: u64) -> (r: bool)
    ensures
        r == ids@.contains(id),
{
    let mut i: usize = 0;
    while i < ids.len()
        invariant
            i <= ids.len(),
            forall|k: int| 0 <= k < i ==> ids@[k] != id,
        decreases ids.len() - i,
    {
        if ids[i] == id {
            return true;
        }
        i += 1;
    }
    false
}

/// The titles that a list of directory names stands for: each identifier
/// once, where its name first occurs. `None` if a name writes no
/// identifier.
pub fn v1_get_title_ids(names: &Vec<String>) -> (r: Option<Vec<u64>>)
    ensures
        match named_ids(text_views(names@)) {
            Some(ids) => r matches Some(v) && v@ == first_occurrences(ids),
            None => r is None,
        },
{
    let ghost texts = text_views(names@);
    let mut read: Vec<u64> = Vec::new();
    let mut out: Vec<u64> = Vec::new();
    let mut i: usize = 0;
    proof {
        assert(read@.subrange(0, 0) =~= read@);
    }
    while i < names.len()
        invariant
            i <= names.len(),
            texts == text_views(names@),
            read.len() == i,
            forall|k: int| 0 <= k < i ==> parse_hex(#[trigger] texts[k]) == Some(read[k]),
            out@ == first_occurrences(read@),
        decreases names.len() - i,
    {
        match parse_title_id(names[i].as_str()) {
            None => {
                proof {
                    assert(parse_hex(texts[i as int]).is_none());
                }
                return None;
            },
            Some(id) => {
                proof {
                    assert(read@.push(id).drop_last() =~= read@);
                }
                if !has_id(&read, id) {
                    out.push(id);
                }
                read.push(id);
            },
        }
        i += 1;
    }
    proof {
        let ids = texts.map_values(|n: Seq<char>| parse_hex(n).unwrap());
        assert(read@ =~= ids);
    }
    Some(out)
}

} // verus!
