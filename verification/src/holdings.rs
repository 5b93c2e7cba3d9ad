//! What a side holds, as a map from paths to content, and what carrying
//! out a download plan does to it.

use vstd::prelude::*;
use crate::diff::{
    action_paths, client_paths, distinct_paths, download_plan, first_held, last_declared,
    lemma_distinct_paths, server_paths, verdict,
};
use crate::file_info::{ClientFileView, DownloadAction, DownloadFileView, ServerFileView};

verus! {

/// What a client holds according to its declaration: for each declared
/// path, the length and digest declared last.
pub open spec fn declared_state(client: Seq<ClientFileView>) -> Map<
    Seq<char>,
    (u64, Option<Seq<char>>),
> {
    Map::new(
        |p: Seq<char>| last_declared(client, p).is_some(),
        |p: Seq<char>| (last_declared(client, p).unwrap().size, last_declared(client, p).unwrap().hash),
    )
}

/// What the server holds according to its listing: for each listed path,
/// the length and digest listed first.
pub open spec fn held_state(server: Seq<ServerFileView>) -> Map<Seq<char>, (u64, Option<Seq<char>>)> {
    Map::new(
        |p: Seq<char>| first_held(server, p).is_some(),
        |p: Seq<char>| (first_held(server, p).unwrap().size, Some(first_held(server, p).unwrap().hash)),
    )
}

/// The length that a verdict carries, or zero.
pub open spec fn carried_size(a: DownloadFileView) -> u64 {
    match a.size {
        Some(n) => n,
        None => 0,
    }
}

/// Carrying out one verdict. With CREATE or REPLACE the path gets the
/// content that the verdict carries, with REMOVE the path is deleted, and
/// with KEEP nothing changes.
pub open spec fn carry_out_one(
    state: Map<Seq<char>, (u64, Option<Seq<char>>)>,
    a: DownloadFileView,
) -> Map<Seq<char>, (u64, Option<Seq<char>>)> {
    match a.action {
        DownloadAction::CREATE => state.insert(a.path, (carried_size(a), a.hash)),
        DownloadAction::REPLACE => state.insert(a.path, (carried_size(a), a.hash)),
        DownloadAction::KEEP => state,
        DownloadAction::REMOVE => state.remove(a.path),
    }
}

/// Carrying out a list of verdicts in order.
pub open spec fn carry_out(
    state: Map<Seq<char>, (u64, Option<Seq<char>>)>,
    actions: Seq<DownloadFileView>,
) -> Map<Seq<char>, (u64, Option<Seq<char>>)>
    decreases actions.len(),
{
    if actions.len() == 0 {
        state
    } else {
        carry_out_one(carry_out(state, actions.drop_last()), actions.last())
    }
}

/// Storing the files of one verdict without deleting anything: what a
/// commit does with the files that CREATE and REPLACE name.
pub open spec fn store_one(
    state: Map<Seq<char>, (u64, Option<Seq<char>>)>,
    a: DownloadFileView,
) -> Map<Seq<char>, (u64, Option<Seq<char>>)> {
    match a.action {
        DownloadAction::CREATE => state.insert(a.path, (carried_size(a), a.hash)),
        DownloadAction::REPLACE => state.insert(a.path, (carried_size(a), a.hash)),
        _ => state,
    }
}

/// Storing the files of a list of verdicts in order, deleting nothing.
pub open spec fn store_all(
    state: Map<Seq<char>, (u64, Option<Seq<char>>)>,
    actions: Seq<DownloadFileView>,
) -> Map<Seq<char>, (u64, Option<Seq<char>>)>
    decreases actions.len(),
{
    if actions.len() == 0 {
        state
    } else {
        store_one(store_all(state, actions.drop_last()), actions.last())
    }
}

/// Whether two states agree on a path: both lack it, or both have it with
/// the same content.
pub open spec fn agree_at(
    a: Map<Seq<char>, (u64, Option<Seq<char>>)>,
    b: Map<Seq<char>, (u64, Option<Seq<char>>)>,
    p: Seq<char>,
) -> bool {
    a.contains_key(p) == b.contains_key(p) && (a.contains_key(p) ==> a[p] == b[p])
}

/// A path is declared exactly if the declaration lists it.
pub proof fn lemma_declared_paths(client: Seq<ClientFileView>, p: Seq<char>)
    ensures
        last_declared(client, p).is_some() <==> client_paths(client).contains(p),
        last_declared(client, p) matches Some(c) ==> c.path == p && client.contains(c),
    decreases client.len(),
{
    let paths = client_paths(client);
    if client.len() > 0 {
        let front = client.drop_last();
        lemma_declared_paths(front, p);
        assert(client_paths(front) =~= paths.drop_last());
        if client.last().path == p {
            assert(paths[paths.len() - 1] == p);
            assert(client[client.len() - 1] == client.last());
        } else {
            if client_paths(front).contains(p) {
                let j = choose|j: int| 0 <= j < front.len() && client_paths(front)[j] == p;
                assert(paths[j] == p);
            }
            if paths.contains(p) {
                let j = choose|j: int| 0 <= j < paths.len() && paths[j] == p;
                assert(client_paths(front)[j] == p);
            }
            if let Some(c) = last_declared(front, p) {
                let j = choose|j: int| 0 <= j < front.len() && front[j] == c;
                assert(client[j] == c);
            }
        }
    }
}

/// A path is held exactly if the listing has it.
pub proof fn lemma_held_paths(server: Seq<ServerFileView>, p: Seq<char>)
    ensures
        first_held(server, p).is_some() <==> server_paths(server).contains(p),
        first_held(server, p) matches Some(s) ==> s.path == p && server.contains(s),
    decreases server.len(),
{
    let paths = server_paths(server);
    if server.len() > 0 {
        let front = server.drop_last();
        lemma_held_paths(front, p);
        assert(server_paths(front) =~= paths.drop_last());
        if server_paths(front).contains(p) {
            let j = choose|j: int| 0 <= j < front.len() && server_paths(front)[j] == p;
            assert(paths[j] == p);
        }
        if paths.contains(p) {
            let j = choose|j: int| 0 <= j < paths.len() && paths[j] == p;
            if j < front.len() {
                assert(server_paths(front)[j] == p);
            }
        }
        if server.last().path == p {
            assert(paths[paths.len() - 1] == p);
            assert(server[server.len() - 1] == server.last());
        }
        if let Some(s) = first_held(front, p) {
            let j = choose|j: int| 0 <= j < front.len() && front[j] == s;
            assert(server[j] == s);
        }
    }
}

/// A download plan has exactly one verdict for each path that is declared
/// or held, and none for any other path; each is the verdict on its path.
pub proof fn lemma_download_plan_paths(client: Seq<ClientFileView>, server: Seq<ServerFileView>)
    ensures
        action_paths(download_plan(client, server)).no_duplicates(),
        forall|p: Seq<char>| #[trigger]
            action_paths(download_plan(client, server)).contains(p) <==> (client_paths(
                client,
            ).contains(p) || server_paths(server).contains(p)),
        forall|i: int|
            0 <= i < download_plan(client, server).len() ==> #[trigger] download_plan(
                client,
                server,
            )[i] == verdict(client, server, download_plan(client, server)[i].path),
{
    let all = client_paths(client) + server_paths(server);
    let plan = download_plan(client, server);
    lemma_distinct_paths(all);
    assert(action_paths(plan) =~= distinct_paths(all));
    assert forall|p: Seq<char>| #[trigger]
        action_paths(plan).contains(p) <==> (client_paths(client).contains(p) || server_paths(
            server,
        ).contains(p)) by {
        if all.contains(p) {
            let j = choose|j: int| 0 <= j < all.len() && all[j] == p;
            if j < client_paths(client).len() {
                assert(client_paths(client)[j] == p);
            } else {
                assert(server_paths(server)[j - client_paths(client).len()] == p);
            }
        }
        if client_paths(client).contains(p) {
            let j = choose|j: int| 0 <= j < client_paths(client).len() && client_paths(client)[j] == p;
            assert(all[j] == p);
        }
        if server_paths(server).contains(p) {
            let j = choose|j: int| 0 <= j < server_paths(server).len() && server_paths(server)[j] == p;
            assert(all[client_paths(client).len() + j] == p);
        }
    }
}

/// Verdicts on other paths leave a path as it was.
proof fn lemma_carry_out_elsewhere(
    state: Map<Seq<char>, (u64, Option<Seq<char>>)>,
    actions: Seq<DownloadFileView>,
    p: Seq<char>,
)
    requires
        !action_paths(actions).contains(p),
    ensures
        agree_at(carry_out(state, actions), state, p),
        agree_at(store_all(state, actions), state, p),
    decreases actions.len(),
{
    if actions.len() > 0 {
        let front = actions.drop_last();
        assert(action_paths(actions)[actions.len() - 1] == actions.last().path);
        assert forall|j: int| 0 <= j < front.len() implies action_paths(front)[j] != p by {
            assert(action_paths(actions)[j] == action_paths(front)[j]);
        }
        lemma_carry_out_elsewhere(state, front, p);
    }
}

/// Among verdicts on distinct paths, only the verdict on a path decides
/// what becomes of the path.
proof fn lemma_carry_out_at(
    state: Map<Seq<char>, (u64, Option<Seq<char>>)>,
    actions: Seq<DownloadFileView>,
    i: int,
)
    requires
        action_paths(actions).no_duplicates(),
        0 <= i < actions.len(),
    ensures
        agree_at(carry_out(state, actions), carry_out_one(state, actions[i]), actions[i].path),
        agree_at(store_all(state, actions), store_one(state, actions[i]), actions[i].path),
    decreases actions.len(),
{
    let front = actions.drop_last();
    let p = actions[i].path;
    assert(action_paths(front) =~= action_paths(actions).drop_last());
    if i == actions.len() - 1 {
        assert forall|j: int| 0 <= j < front.len() implies action_paths(front)[j] != p by {
            assert(action_paths(actions)[j] == action_paths(front)[j]);
            assert(action_paths(actions)[i] == p);
        }
        lemma_carry_out_elsewhere(state, front, p);
    } else {
        assert(action_paths(actions)[i] == p);
        assert(action_paths(actions)[actions.len() - 1] == actions.last().path);
        assert(actions.last().path != p);
        assert(front[i] == actions[i]);
        lemma_carry_out_at(state, front, i);
    }
}

/// A client that carries out every verdict of a download plan holds what
/// the server holds: the same paths with the same lengths and digests.
pub proof fn lemma_plan_reaches_held_state(client: Seq<ClientFileView>, server: Seq<ServerFileView>)
    ensures
        carry_out(declared_state(client), download_plan(client, server)) == held_state(server),
{
    let plan = download_plan(client, server);
    let start = declared_state(client);
    let end = carry_out(start, plan);
    let goal = held_state(server);
    lemma_download_plan_paths(client, server);
    assert forall|p: Seq<char>| agree_at(end, goal, p) by {
        lemma_declared_paths(client, p);
        lemma_held_paths(server, p);
        if action_paths(plan).contains(p) {
            let i = choose|i: int| 0 <= i < action_paths(plan).len() && action_paths(plan)[i] == p;
            assert(plan[i].path == p);
            assert(plan[i] == verdict(client, server, p));
            lemma_carry_out_at(start, plan, i);
        } else {
            lemma_carry_out_elsewhere(start, plan, p);
        }
    }
    assert forall|p: Seq<char>| #[trigger] end.dom().contains(p) == goal.dom().contains(p) by {
        assert(agree_at(end, goal, p));
    }
    assert forall|p: Seq<char>| end.dom().contains(p) implies #[trigger] end[p] == goal[p] by {
        assert(agree_at(end, goal, p));
    }
    assert(end =~= goal);
}

/// Storing the files that a download plan names under CREATE and REPLACE
/// into what the client declared gives every held path the content that
/// the server holds; where the plan removes nothing, the result is what
/// the server holds.
pub proof fn lemma_stored_files_match_held(client: Seq<ClientFileView>, server: Seq<ServerFileView>)
    ensures
        forall|p: Seq<char>|
            held_state(server).contains_key(p) ==> #[trigger] store_all(
                declared_state(client),
                download_plan(client, server),
            ).contains_key(p) && store_all(declared_state(client), download_plan(client, server))[p]
                == held_state(server)[p],
        (forall|i: int|
            0 <= i < download_plan(client, server).len() ==> (#[trigger] download_plan(
                client,
                server,
            )[i]).action != DownloadAction::REMOVE) ==> store_all(
            declared_state(client),
            download_plan(client, server),
        ) == held_state(server),
{
    let plan = download_plan(client, server);
    let start = declared_state(client);
    let end = store_all(start, plan);
    let goal = held_state(server);
    lemma_download_plan_paths(client, server);
    assert forall|p: Seq<char>|
        (goal.contains_key(p) || forall|i: int|
            0 <= i < plan.len() ==> (#[trigger] plan[i]).action
                != DownloadAction::REMOVE) implies agree_at(end, goal, p) by {
        lemma_declared_paths(client, p);
        lemma_held_paths(server, p);
        if action_paths(plan).contains(p) {
            let i = choose|i: int| 0 <= i < action_paths(plan).len() && action_paths(plan)[i] == p;
            assert(plan[i].path == p);
            assert(plan[i] == verdict(client, server, p));
            lemma_carry_out_at(start, plan, i);
        } else {
            lemma_carry_out_elsewhere(start, plan, p);
        }
    }
    if forall|i: int| 0 <= i < plan.len() ==> (#[trigger] plan[i]).action != DownloadAction::REMOVE {
        assert forall|p: Seq<char>| #[trigger] end.dom().contains(p) == goal.dom().contains(p) by {
            assert(agree_at(end, goal, p));
        }
        assert forall|p: Seq<char>| end.dom().contains(p) implies #[trigger] end[p] == goal[p] by {
            assert(agree_at(end, goal, p));
        }
        assert(end =~= goal);
    }
}

} // verus!
