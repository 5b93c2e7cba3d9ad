//! The content diff: which files have to move so that one side reaches the
//! state of the other.
//!
//! Both directions compare what a client declares with what the server
//! holds. A declared file and a held file are the same when their lengths
//! and digests agree; a path counts once however often it is listed.

use vstd::prelude::*;
use crate::file_info::{
    action_views, client_views, has_same_content, same_content, server_views, text_views,
    clone_opt_text, ClientFileInfo, ClientFileView, DownloadAction, DownloadFileInfo,
    DownloadFileView, ServerFile, ServerFileView,
};

verus! {

/// The paths of a list of declared files, in order.
pub open spec fn client_paths(client: Seq<ClientFileView>) -> Seq<Seq<char>> {
    client.map_values(|f: ClientFileView| f.path)
}

/// The paths of a list of held files, in order.
pub open spec fn server_paths(server: Seq<ServerFileView>) -> Seq<Seq<char>> {
    server.map_values(|f: ServerFileView| f.path)
}

/// The paths of a list of verdicts, in order.
pub open spec fn action_paths(actions: Seq<DownloadFileView>) -> Seq<Seq<char>> {
    actions.map_values(|f: DownloadFileView| f.path)
}

/// A list with every repetition dropped: each value stands where it first
/// occurred.
pub open spec fn first_occurrences<A>(values: Seq<A>) -> Seq<A>
    decreases values.len(),
{
    if values.len() == 0 {
        Seq::empty()
    } else {
        let before = first_occurrences(values.drop_last());
        if values.drop_last().contains(values.last()) {
            before
        } else {
            before.push(values.last())
        }
    }
}

/// A list of paths with every repetition dropped: each path stands where it
/// first occurred.
pub open spec fn distinct_paths(paths: Seq<Seq<char>>) -> Seq<Seq<char>> {
    first_occurrences(paths)
}

/// What the client declares for a path: the last entry with that path.
pub open spec fn last_declared(client: Seq<ClientFileView>, path: Seq<char>) -> Option<
    ClientFileView,
>
    decreases client.len(),
{
    if client.len() == 0 {
        None
    } else if client.last().path == path {
        Some(client.last())
    } else {
        last_declared(client.drop_last(), path)
    }
}

/// What the server holds at a path: the first entry with that path.
pub open spec fn first_held(server: Seq<ServerFileView>, path: Seq<char>) -> Option<
    ServerFileView,
>
    decreases server.len(),
{
    if server.len() == 0 {
        None
    } else {
        match first_held(server.drop_last(), path) {
            Some(s) => Some(s),
            None => if server.last().path == path {
                Some(server.last())
            } else {
                None
            },
        }
    }
}

/// The verdict on one path for a download.
///
/// Held and declared with the same content: KEEP. Held and declared with
/// other content: REPLACE, with the server's length and digest. Held only:
/// CREATE, with the server's length and digest. Declared only: REMOVE,
/// with the length and digest declared. A path on neither side occurs in
/// no plan; for it this is a REMOVE without length and digest.
pub open spec fn verdict(
    client: Seq<ClientFileView>,
    server: Seq<ServerFileView>,
    path: Seq<char>,
) -> DownloadFileView {
    match (last_declared(client, path), first_held(server, path)) {
        (Some(c), Some(s)) => if same_content(c, s) {
            DownloadFileView {
                path: path,
                action: DownloadAction::KEEP,
                size: Some(c.size),
                hash: c.hash,
            }
        } else {
            DownloadFileView {
                path: path,
                action: DownloadAction::REPLACE,
                size: Some(s.size),
                hash: Some(s.hash),
            }
        },
        (None, Some(s)) => DownloadFileView {
            path: path,
            action: DownloadAction::CREATE,
            size: Some(s.size),
            hash: Some(s.hash),
        },
        (Some(c), None) => DownloadFileView {
            path: path,
            action: DownloadAction::REMOVE,
            size: Some(c.size),
            hash: c.hash,
        },
        (None, None) => DownloadFileView {
            path: path,
            action: DownloadAction::REMOVE,
            size: None,
            hash: None,
        },
    }
}

/// The verdicts on the distinct paths of a list, in the order of the list.
pub open spec fn plan_over(
    client: Seq<ClientFileView>,
    server: Seq<ServerFileView>,
    paths: Seq<Seq<char>>,
) -> Seq<DownloadFileView> {
    distinct_paths(paths).map_values(|p: Seq<char>| verdict(client, server, p))
}

/// The download diff: one verdict for each path that the client declares or
/// the server holds, the declared paths first.
pub open spec fn download_plan(client: Seq<ClientFileView>, server: Seq<ServerFileView>) -> Seq<
    DownloadFileView,
> {
    plan_over(client, server, client_paths(client) + server_paths(server))
}

/// Whether every verdict of a list is KEEP.
pub open spec fn all_keep(actions: Seq<DownloadFileView>) -> bool {
    forall|i: int| 0 <= i < actions.len() ==> (#[trigger] actions[i]).action == DownloadAction::KEEP
}

/// Whether a declared path needs no upload: it is rooted at `/`, and the
/// server holds a file there with the content of one of its declarations.
pub open spec fn already_held(
    client: Seq<ClientFileView>,
    server: Seq<ServerFileView>,
    path: Seq<char>,
) -> bool {
    path.len() > 0 && path[0] == '/' && exists|i: int|
        0 <= i < client.len() && (#[trigger] client[i]).path == path && match first_held(
            server,
            path,
        ) {
            Some(s) => same_content(client[i], s),
            None => false,
        }
}

/// The upload diff: the distinct declared paths, in the order declared,
/// without those that the server already holds with the declared content.
pub open spec fn upload_needed(client: Seq<ClientFileView>, server: Seq<ServerFileView>) -> Seq<
    Seq<char>,
> {
    distinct_paths(client_paths(client)).filter(|p: Seq<char>| !already_held(client, server, p))
}

/// A value is among the first occurrences of a list exactly if it is in
/// the list.
pub proof fn lemma_first_occurrences_contains<A>(values: Seq<A>, v: A)
    ensures
        first_occurrences(values).contains(v) <==> values.contains(v),
    decreases values.len(),
{
    if values.len() > 0 {
        let front = values.drop_last();
        let last = values.last();
        let d = first_occurrences(values);
        let df = first_occurrences(front);
        lemma_first_occurrences_contains(front, v);
        lemma_first_occurrences_contains(front, last);
        if d.contains(v) {
            let k = choose|k: int| 0 <= k < d.len() && d[k] == v;
            if k < df.len() {
                assert(df[k] == v);
                assert(df.contains(v));
                let j = choose|j: int| 0 <= j < front.len() && front[j] == v;
                assert(values[j] == v);
            } else {
                assert(values[values.len() - 1] == v);
            }
        }
        if values.contains(v) {
            let j = choose|j: int| 0 <= j < values.len() && values[j] == v;
            if j < values.len() - 1 {
                assert(front[j] == v);
                assert(front.contains(v));
                let k = choose|k: int| 0 <= k < df.len() && df[k] == v;
                assert(d[k] == v);
            } else if front.contains(last) {
                assert(df.contains(v));
                let k = choose|k: int| 0 <= k < df.len() && df[k] == v;
                assert(d[k] == v);
            } else {
                assert(d[d.len() - 1] == v);
            }
        }
    }
}

/// No value stands twice among the first occurrences of a list, which are
/// no more than the list has entries and hold exactly its values.
pub proof fn lemma_first_occurrences<A>(values: Seq<A>)
    ensures
        first_occurrences(values).no_duplicates(),
        first_occurrences(values).len() <= values.len(),
        forall|v: A| #[trigger] first_occurrences(values).contains(v) <==> values.contains(v),
    decreases values.len(),
{
    assert forall|v: A| #[trigger] first_occurrences(values).contains(v) <==> values.contains(
        v,
    ) by {
        lemma_first_occurrences_contains(values, v);
    }
    if values.len() > 0 {
        let front = values.drop_last();
        let last = values.last();
        let d = first_occurrences(values);
        let df = first_occurrences(front);
        lemma_first_occurrences(front);
        if !front.contains(last) {
            lemma_first_occurrences_contains(front, last);
            assert forall|i: int, j: int| 0 <= i < d.len() && 0 <= j < d.len() && i != j implies d[i]
                != d[j] by {
                if i == d.len() - 1 {
                    assert(df[j] == d[j]);
                    assert(df.contains(d[j]));
                } else if j == d.len() - 1 {
                    assert(df[i] == d[i]);
                    assert(df.contains(d[i]));
                }
            }
        }
    }
}

/// No path stands twice among the distinct paths of a list, which are no
/// more than the list has entries and hold exactly its paths.
pub proof fn lemma_distinct_paths(paths: Seq<Seq<char>>)
    ensures
        distinct_paths(paths).no_duplicates(),
        distinct_paths(paths).len() <= paths.len(),
        forall|p: Seq<char>| #[trigger] distinct_paths(paths).contains(p) <==> paths.contains(p),
{
    lemma_first_occurrences(paths);
}

/// Filtering a list without repetitions leaves one without repetitions,
/// which holds exactly the listed paths that pass the filter.
proof fn lemma_filter_distinct(paths: Seq<Seq<char>>, keep: spec_fn(Seq<char>) -> bool)
    requires
        paths.no_duplicates(),
    ensures
        paths.filter(keep).no_duplicates(),
        forall|p: Seq<char>| #[trigger] paths.filter(keep).contains(p) <==> paths.contains(p) && keep(p),
    decreases paths.len(),
{
    reveal(Seq::filter);
    let out = paths.filter(keep);
    if paths.len() > 0 {
        let front = paths.drop_last();
        let last = paths.last();
        let fo = front.filter(keep);
        lemma_filter_distinct(front, keep);
        assert(!front.contains(last)) by {
            if front.contains(last) {
                let j = choose|j: int| 0 <= j < front.len() && front[j] == last;
                assert(paths[j] == paths[paths.len() - 1]);
            }
        }
        assert forall|p: Seq<char>| #[trigger] out.contains(p) <==> paths.contains(p) && keep(p) by {
            if out.contains(p) {
                let k = choose|k: int| 0 <= k < out.len() && out[k] == p;
                if k < fo.len() {
                    assert(fo[k] == p);
                    assert(fo.contains(p));
                    let j = choose|j: int| 0 <= j < front.len() && front[j] == p;
                    assert(paths[j] == p);
                } else {
                    assert(paths[paths.len() - 1] == p);
                }
            }
            if paths.contains(p) && keep(p) {
                let j = choose|j: int| 0 <= j < paths.len() && paths[j] == p;
                if j < front.len() {
                    assert(front[j] == p);
                    assert(front.contains(p));
                    assert(fo.contains(p));
                    let k = choose|k: int| 0 <= k < fo.len() && fo[k] == p;
                    assert(out[k] == p);
                } else {
                    assert(out[out.len() - 1] == p);
                }
            }
        }
        if keep(last) {
            assert forall|i: int, j: int|
                0 <= i < out.len() && 0 <= j < out.len() && i != j implies out[i] != out[j] by {
                if i == out.len() - 1 {
                    assert(fo[j] == out[j]);
                    assert(fo.contains(out[j]));
                } else if j == out.len() - 1 {
                    assert(fo[i] == out[i]);
                    assert(fo.contains(out[i]));
                }
            }
        }
    }
}

/// The upload diff lists no path twice, and lists exactly the declared
/// paths that the server does not already hold with the declared content.
pub proof fn lemma_upload_needed_paths(client: Seq<ClientFileView>, server: Seq<ServerFileView>)
    ensures
        upload_needed(client, server).no_duplicates(),
        forall|p: Seq<char>| #[trigger]
            upload_needed(client, server).contains(p) <==> client_paths(client).contains(p)
                && !already_held(client, server, p),
{
    let declared = distinct_paths(client_paths(client));
    let keep = |p: Seq<char>| !already_held(client, server, p);
    lemma_distinct_paths(client_paths(client));
    lemma_filter_distinct(declared, keep);
    assert forall|p: Seq<char>| #[trigger]
        upload_needed(client, server).contains(p) <==> client_paths(client).contains(p)
            && !already_held(client, server, p) by {
        assert(declared.contains(p) <==> client_paths(client).contains(p));
    }
}

/// With nothing held, the upload diff is the list of the distinct declared
/// paths.
pub proof fn lemma_upload_needs_all_when_nothing_held(client: Seq<ClientFileView>)
    ensures
        upload_needed(client, Seq::empty()) == distinct_paths(client_paths(client)),
{
    let declared = distinct_paths(client_paths(client));
    let keep = |p: Seq<char>| !already_held(client, Seq::<ServerFileView>::empty(), p);
    lemma_filter_all(declared, keep);
}

/// A filter that every entry passes changes nothing.
proof fn lemma_filter_all(paths: Seq<Seq<char>>, keep: spec_fn(Seq<char>) -> bool)
    requires
        forall|i: int| 0 <= i < paths.len() ==> keep(#[trigger] paths[i]),
    ensures
        paths.filter(keep) == paths,
    decreases paths.len(),
{
    reveal(Seq::filter);
    if paths.len() > 0 {
        let front = paths.drop_last();
        assert forall|i: int| 0 <= i < front.len() implies keep(#[trigger] front[i]) by {
            assert(front[i] == paths[i]);
        }
        lemma_filter_all(front, keep);
        assert(keep(paths[paths.len() - 1]));
        assert(front.push(paths.last()) =~= paths);
    }
}

/// Index of the entry that `last_declared` names.
fn find_declared(client: &Vec<ClientFileInfo>, path: &String) -> (r: Option<usize>)
    ensures
        match r {
            Some(i) => i < client.len() && last_declared(client_views(client@), path@) == Some(
                client[i as int]@,
            ),
            None => last_declared(client_views(client@), path@).is_none(),
        },
{
    let ghost cv = client_views(client@);
    let mut found: Option<usize> = None;
    let mut i: usize = 0;
    proof {
        assert(cv.subrange(0, 0).len() == 0);
    }
    while i < client.len()
        invariant
            i <= client.len(),
            cv == client_views(client@),
            match found {
                Some(k) => k < i && last_declared(cv.subrange(0, i as int), path@) == Some(
                    client[k as int]@,
                ),
                None => last_declared(cv.subrange(0, i as int), path@).is_none(),
            },
        decreases client.len() - i,
    {
        proof {
            let next = cv.subrange(0, i + 1);
            assert(next.drop_last() =~= cv.subrange(0, i as int));
            assert(next.last() == client[i as int]@);
        }
        if client[i].path == *path {
            found = Some(i);
        }
        i += 1;
    }
    proof {
        assert(cv.subrange(0, i as int) =~= cv);
    }
    found
}

/// Index of the entry that `first_held` names.
fn find_held(server: &Vec<ServerFile>, path: &String) -> (r: Option<usize>)
    ensures
        match r {
            Some(i) => i < server.len() && first_held(server_views(server@), path@) == Some(
                server[i as int]@,
            ),
            None => first_held(server_views(server@), path@).is_none(),
        },
{
    let ghost sv = server_views(server@);
    let mut found: Option<usize> = None;
    let mut i: usize = 0;
    proof {
        assert(sv.subrange(0, 0).len() == 0);
    }
    while i < server.len()
        invariant
            i <= server.len(),
            sv == server_views(server@),
            match found {
                Some(k) => k < i && first_held(sv.subrange(0, i as int), path@) == Some(
                    server[k as int]@,
                ),
                None => first_held(sv.subrange(0, i as int), path@).is_none(),
            },
        decreases server.len() - i,
    {
        proof {
            let next = sv.subrange(0, i + 1);
            assert(next.drop_last() =~= sv.subrange(0, i as int));
            assert(next.last() == server[i as int]@);
        }
        if found.is_none() && server[i].path == *path {
            found = Some(i);
        }
        i += 1;
    }
    proof {
        assert(sv.subrange(0, i as int) =~= sv);
    }
    found
}

/// The verdict on one path, computed.
fn decide(client: &Vec<ClientFileInfo>, server: &Vec<ServerFile>, path: &String) -> (r:
    DownloadFileInfo)
    ensures
        r@ == verdict(client_views(client@), server_views(server@), path@),
{
    let declared = find_declared(client, path);
    let held = find_held(server, path);
    match (declared, held) {
        (Some(i), Some(j)) => {
            let c = &client[i];
            let s = &server[j];
            if has_same_content(c, s) {
                DownloadFileInfo {
                    path: path.clone(),
                    action: DownloadAction::KEEP,
                    size: Some(c.size),
                    hash: clone_opt_text(&c.hash),
                }
            } else {
                DownloadFileInfo {
                    path: path.clone(),
                    action: DownloadAction::REPLACE,
                    size: Some(s.size),
                    hash: Some(s.hash.clone()),
                }
            }
        },
        (None, Some(j)) => {
            let s = &server[j];
            DownloadFileInfo {
                path: path.clone(),
                action: DownloadAction::CREATE,
                size: Some(s.size),
                hash: Some(s.hash.clone()),
            }
        },
        (Some(i), None) => {
            let c = &client[i];
            DownloadFileInfo {
                path: path.clone(),
                action: DownloadAction::REMOVE,
                size: Some(c.size),
                hash: clone_opt_text(&c.hash),
            }
        },
        (None, None) => DownloadFileInfo {
            path: path.clone(),
            action: DownloadAction::REMOVE,
            size: None,
            hash: None,
        },
    }
}

/// Whether a path is among those of a list of verdicts.
fn has_verdict(actions: &Vec<DownloadFileInfo>, path: &String) -> (r: bool)
    ensures
        r == action_paths(action_views(actions@)).contains(path@),
{
    let ghost paths = action_paths(action_views(actions@));
    let mut i: usize = 0;
    while i < actions.len()
        invariant
            i <= actions.len(),
            paths == action_paths(action_views(actions@)),
            forall|k: int| 0 <= k < i ==> paths[k] != path@,
        decreases actions.len() - i,
    {
        if actions[i].path == *path {
            assert(paths[i as int] == path@);
            return true;
        }
        i += 1;
    }
    false
}

/// Adds the verdict on one more path to a plan, unless the path has one.
fn add_verdict(
    actions: &mut Vec<DownloadFileInfo>,
    client: &Vec<ClientFileInfo>,
    server: &Vec<ServerFile>,
    path: &String,
    Ghost(seen): Ghost<Seq<Seq<char>>>,
)
    requires
        action_views(old(actions)@) == plan_over(
            client_views(client@),
            server_views(server@),
            seen,
        ),
    ensures
        action_views(final(actions)@) == plan_over(
            client_views(client@),
            server_views(server@),
            seen.push(path@),
        ),
{
    let ghost cv = client_views(client@);
    let ghost sv = server_views(server@);
    proof {
        lemma_distinct_paths(seen);
        assert(seen.push(path@).drop_last() =~= seen);
        assert(action_paths(plan_over(cv, sv, seen)) =~= distinct_paths(seen));
    }
    if !has_verdict(actions, path) {
        let entry = decide(client, server, path);
        actions.push(entry);
        proof {
            assert(action_views(actions@) =~= plan_over(cv, sv, seen.push(path@)));
        }
    }
}

/// Computes the download diff between what a client declares and what the
/// server holds.
///
/// The result has exactly one verdict for each path that occurs on either
/// side: first the declared paths in the order declared, then the paths
/// that only the server holds, in the order listed.
pub fn diff_for_download(server: &Vec<ServerFile>, client: &Vec<ClientFileInfo>) -> (r: Vec<
    DownloadFileInfo,
>)
    ensures
        action_views(r@) == download_plan(client_views(client@), server_views(server@)),
{
    let ghost cv = client_views(client@);
    let ghost sv = server_views(server@);
    let ghost all = client_paths(cv) + server_paths(sv);
    let mut actions: Vec<DownloadFileInfo> = Vec::new();
    proof {
        assert(action_views(actions@) =~= plan_over(cv, sv, all.subrange(0, 0)));
    }
    let mut i: usize = 0;
    while i < client.len()
        invariant
            i <= client.len(),
            cv == client_views(client@),
            sv == server_views(server@),
            all == client_paths(cv) + server_paths(sv),
            action_views(actions@) == plan_over(cv, sv, all.subrange(0, i as int)),
        decreases client.len() - i,
    {
        add_verdict(&mut actions, client, server, &client[i].path, Ghost(all.subrange(0, i as int)));
        proof {
            assert(all.subrange(0, i as int).push(client[i as int].path@) =~= all.subrange(
                0,
                i + 1,
            ));
        }
        i += 1;
    }
    let mut j: usize = 0;
    while j < server.len()
        invariant
            j <= server.len(),
            cv == client_views(client@),
            sv == server_views(server@),
            all == client_paths(cv) + server_paths(sv),
            action_views(actions@) == plan_over(cv, sv, all.subrange(0, client.len() + j)),
        decreases server.len() - j,
    {
        add_verdict(
            &mut actions,
            client,
            server,
            &server[j].path,
            Ghost(all.subrange(0, client.len() + j)),
        );
        proof {
            assert(all.subrange(0, client.len() + j).push(server[j as int].path@) =~= all.subrange(
                0,
                client.len() + j + 1,
            ));
        }
        j += 1;
    }
    proof {
        assert(all.subrange(0, client.len() + j) =~= all);
    }
    actions
}

/// Whether a path is among a list of paths.
fn has_path(paths: &Vec<String>, path: &String) -> (r: bool)
    ensures
        r == text_views(paths@).contains(path@),
{
    let ghost views = text_views(paths@);
    let mut i: usize = 0;
    while i < paths.len()
        invariant
            i <= paths.len(),
            views == text_views(paths@),
            forall|k: int| 0 <= k < i ==> views[k] != path@,
        decreases paths.len() - i,
    {
        if paths[i] == *path {
            assert(views[i as int] == path@);
            return true;
        }
        i += 1;
    }
    false
}

/// The distinct paths that a client declares, in the order declared.
pub fn declared_paths(client: &Vec<ClientFileInfo>) -> (r: Vec<String>)
    ensures
        text_views(r@) == distinct_paths(client_paths(client_views(client@))),
{
    let ghost all = client_paths(client_views(client@));
    let mut paths: Vec<String> = Vec::new();
    proof {
        assert(text_views(paths@) =~= distinct_paths(all.subrange(0, 0)));
    }
    let mut i: usize = 0;
    while i < client.len()
        invariant
            i <= client.len(),
            all == client_paths(client_views(client@)),
            text_views(paths@) == distinct_paths(all.subrange(0, i as int)),
        decreases client.len() - i,
    {
        proof {
            let seen = all.subrange(0, i as int);
            lemma_distinct_paths(seen);
            assert(all.subrange(0, i + 1).drop_last() =~= seen);
            assert(all.subrange(0, i + 1).last() == client[i as int].path@);
        }
        if !has_path(&paths, &client[i].path) {
            paths.push(client[i].path.clone());
            proof {
                assert(text_views(paths@) =~= distinct_paths(all.subrange(0, i + 1)));
            }
        }
        i += 1;
    }
    proof {
        assert(all.subrange(0, i as int) =~= all);
    }
    paths
}

/// Decides `already_held` for one path.
fn is_already_held(client: &Vec<ClientFileInfo>, server: &Vec<ServerFile>, path: &String) -> (r:
    bool)
    ensures
        r == already_held(client_views(client@), server_views(server@), path@),
{
    let ghost cv = client_views(client@);
    let ghost sv = server_views(server@);
    let text = path.as_str();
    if text.unicode_len() == 0 {
        return false;
    }
    if text.get_char(0) != '/' {
        return false;
    }
    match find_held(server, path) {
        None => false,
        Some(j) => {
            let held = &server[j];
            let mut i: usize = 0;
            while i < client.len()
                invariant
                    i <= client.len(),
                    cv == client_views(client@),
                    sv == server_views(server@),
                    path@.len() > 0 && path@[0] == '/',
                    first_held(sv, path@) == Some(held@),
                    forall|k: int|
                        0 <= k < i ==> !((#[trigger] cv[k]).path == path@ && same_content(
                            cv[k],
                            held@,
                        )),
                decreases client.len() - i,
            {
                if client[i].path == *path && has_same_content(&client[i], held) {
                    assert(cv[i as int].path == path@ && same_content(cv[i as int], held@));
                    return true;
                }
                i += 1;
            }
            false
        },
    }
}

/// Computes the upload diff: the declared paths that the client has to
/// send, because the server does not hold them with the declared content.
///
/// Each path is listed once, in the order of its first declaration. With
/// nothing held, every declared path is needed.
pub fn diff_for_upload(server: &Vec<ServerFile>, client: &Vec<ClientFileInfo>) -> (r: Vec<String>)
    ensures
        text_views(r@) == upload_needed(client_views(client@), server_views(server@)),
{
    let ghost cv = client_views(client@);
    let ghost sv = server_views(server@);
    let ghost needed = |p: Seq<char>| !already_held(cv, sv, p);
    let paths = declared_paths(client);
    let ghost all = text_views(paths@);
    let mut out: Vec<String> = Vec::new();
    proof {
        reveal(Seq::filter);
        assert(text_views(out@) =~= all.subrange(0, 0).filter(needed));
    }
    let mut i: usize = 0;
    while i < paths.len()
        invariant
            i <= paths.len(),
            cv == client_views(client@),
            sv == server_views(server@),
            needed == (|p: Seq<char>| !already_held(cv, sv, p)),
            all == text_views(paths@),
            text_views(out@) == all.subrange(0, i as int).filter(needed),
        decreases paths.len() - i,
    {
        proof {
            let seen = all.subrange(0, i as int);
            seen.lemma_filter_push(paths[i as int]@, needed);
            assert(seen.push(paths[i as int]@) =~= all.subrange(0, i + 1));
        }
        if !is_already_held(client, server, &paths[i]) {
            out.push(paths[i].clone());
            proof {
                assert(text_views(out@) =~= all.subrange(0, i + 1).filter(needed));
            }
        }
        i += 1;
    }
    proof {
        assert(all.subrange(0, i as int) =~= all);
    }
    out
}

} // verus!
