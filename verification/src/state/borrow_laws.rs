//! A borrow from [`Project::find_request_mut`], [`Project::find_folder_mut`]
//! or [`Project::iter_all_requests_mut`] through which nothing is written
//! leaves the project as it was.

use vstd::prelude::*;
use crate::state::project::{
    FolderModel, Project, find_folder_in, find_folder_in_forest, find_request_in, find_request_in_forest,
    first_request, forest_entries, forest_requests, join_path, lemma_first_request_bound, subtree_entries,
    subtree_requests,
};
use crate::state::project_borrow::{
    forest_with_requests, replace_folder_in, replace_folder_in_forest, replace_req_in, replace_req_in_forest,
    subtree_with_requests,
};
use crate::state::request::ApiRequest;

verus! {

proof fn lemma_replace_req_same(f: FolderModel, id: Seq<char>)
    ensures
        find_request_in(f, id) matches Some((_, q)) ==> replace_req_in(f, id, q) == f,
    decreases f,
{
    lemma_first_request_bound(f.requests, id);
    lemma_replace_req_same_forest(f.folders, id);
    if let Some((_, q)) = find_request_in(f, id) {
        if let Some(k) = first_request(f.requests, id) {
            assert(f.requests.update(k, q) =~= f.requests);
        }
    }
}

proof fn lemma_replace_req_same_forest(fs: Seq<FolderModel>, id: Seq<char>)
    ensures
        find_request_in_forest(fs, id) matches Some((_, q)) ==> replace_req_in_forest(fs, id, q) == fs,
    decreases fs,
{
    if fs.len() > 0 {
        lemma_replace_req_same_forest(fs.drop_last(), id);
        lemma_replace_req_same(fs.last(), id);
        assert(fs.drop_last().push(fs.last()) =~= fs);
    }
}

proof fn lemma_replace_folder_same(f: FolderModel, id: Seq<char>)
    ensures
        find_folder_in(f, id) matches Some((_, x)) ==> replace_folder_in(f, id, x) == f,
    decreases f,
{
    lemma_replace_folder_same_forest(f.folders, id);
}

proof fn lemma_replace_folder_same_forest(fs: Seq<FolderModel>, id: Seq<char>)
    ensures
        find_folder_in_forest(fs, id) matches Some((_, x)) ==> replace_folder_in_forest(fs, id, x) == fs,
    decreases fs,
{
    if fs.len() > 0 {
        lemma_replace_folder_same_forest(fs.drop_last(), id);
        lemma_replace_folder_same(fs.last(), id);
        assert(fs.drop_last().push(fs.last()) =~= fs);
    }
}

/// The requests of a list of folders, the first folder's subtree first.
proof fn lemma_forest_requests_front(fs: Seq<FolderModel>)
    requires
        fs.len() > 0,
    ensures
        forest_requests(fs) == subtree_requests(fs[0]) + forest_requests(fs.drop_first()),
    decreases fs.len(),
{
    if fs.len() == 1 {
        assert(fs.drop_last() =~= Seq::<FolderModel>::empty());
        assert(fs.drop_first() =~= Seq::<FolderModel>::empty());
        assert(forest_requests(fs.drop_last()) =~= Seq::<ApiRequest>::empty());
        assert(forest_requests(fs.drop_first()) =~= Seq::<ApiRequest>::empty());
        assert(fs.last() == fs[0]);
        assert(forest_requests(fs) =~= subtree_requests(fs[0]) + forest_requests(fs.drop_first()));
    } else {
        lemma_forest_requests_front(fs.drop_last());
        assert(fs.drop_last().drop_first() =~= fs.drop_first().drop_last());
        assert(fs.drop_first().last() == fs.last());
        assert(fs.drop_last()[0] == fs[0]);
        assert(forest_requests(fs) =~= subtree_requests(fs[0]) + forest_requests(fs.drop_first()));
    }
}

proof fn lemma_with_own_requests(f: FolderModel)
    ensures
        subtree_with_requests(f, subtree_requests(f)) == f,
    decreases f,
{
    let all = subtree_requests(f);
    assert(all.take(f.requests.len() as int) =~= f.requests);
    assert(all.skip(f.requests.len() as int) =~= forest_requests(f.folders));
    lemma_with_own_requests_forest(f.folders);
}

proof fn lemma_with_own_requests_forest(fs: Seq<FolderModel>)
    ensures
        forest_with_requests(fs, forest_requests(fs)) == fs,
    decreases fs,
{
    if fs.len() > 0 {
        lemma_forest_requests_front(fs);
        let all = forest_requests(fs);
        let k = subtree_requests(fs[0]).len() as int;
        assert(all.take(k) =~= subtree_requests(fs[0]));
        assert(all.skip(k) =~= forest_requests(fs.drop_first()));
        assert(decreases_to!(fs => fs[0]));
        lemma_with_own_requests(fs[0]);
        lemma_with_own_requests_forest(fs.drop_first());
        assert(seq![fs[0]] + fs.drop_first() =~= fs);
    }
}

/// The requests of a subtree's entries, in order, are its requests.
proof fn lemma_subtree_entry_requests(f: FolderModel, p: Seq<char>)
    ensures
        subtree_entries(f, p).map_values(|e: (Seq<char>, ApiRequest)| e.1) == subtree_requests(f),
    decreases f,
{
    let path = join_path(p, f.name);
    lemma_forest_entry_requests(f.folders, path);
    let own = f.requests.map_values(|r: ApiRequest| (path, r));
    let sub = forest_entries(f.folders, path);
    assert((own + sub).map_values(|e: (Seq<char>, ApiRequest)| e.1) =~= f.requests + sub.map_values(
        |e: (Seq<char>, ApiRequest)| e.1,
    ));
}

proof fn lemma_forest_entry_requests(fs: Seq<FolderModel>, p: Seq<char>)
    ensures
        forest_entries(fs, p).map_values(|e: (Seq<char>, ApiRequest)| e.1) == forest_requests(fs),
    decreases fs,
{
    if fs.len() == 0 {
        assert(forest_entries(fs, p).map_values(|e: (Seq<char>, ApiRequest)| e.1) =~= forest_requests(fs));
    } else {
        lemma_forest_entry_requests(fs.drop_last(), p);
        lemma_subtree_entry_requests(fs.last(), p);
        let a = forest_entries(fs.drop_last(), p);
        let b = subtree_entries(fs.last(), p);
        assert((a + b).map_values(|e: (Seq<char>, ApiRequest)| e.1) =~= a.map_values(
            |e: (Seq<char>, ApiRequest)| e.1,
        ) + b.map_values(|e: (Seq<char>, ApiRequest)| e.1));
    }
}

/// A request borrowed through [`Project::find_request_mut`] and left as it
/// was handed out leaves the project's requests and folders as they were.
pub proof fn law_untouched_request_borrow(p: Project, p2: Project, id: Seq<char>)
    requires
        p.spec_find_request(id) is Some,
        (p2.requests@, p2.folder_models()) == p.spec_replace_request(id, p.spec_find_request(id).unwrap().1),
    ensures
        p2.requests@ == p.requests@,
        p2.folder_models() == p.folder_models(),
{
    lemma_first_request_bound(p.requests@, id);
    lemma_replace_req_same_forest(p.folder_models(), id);
    if let Some(k) = first_request(p.requests@, id) {
        assert(p.requests@.update(k, p.requests@[k]) =~= p.requests@);
    }
}

/// A folder borrowed through [`Project::find_folder_mut`] and left as it was
/// handed out leaves the folder tree as it was.
pub proof fn law_untouched_folder_borrow(ms: Seq<FolderModel>, id: Seq<char>)
    requires
        find_folder_in_forest(ms, id) is Some,
    ensures
        replace_folder_in_forest(ms, id, find_folder_in_forest(ms, id).unwrap().1) == ms,
{
    lemma_replace_folder_same_forest(ms, id);
}

/// Requests borrowed through [`Project::iter_all_requests_mut`] and each left
/// as it was handed out leave the project's requests and folders as they
/// were.
pub proof fn law_untouched_iter_borrow(p: Project, p2: Project, new: Seq<ApiRequest>)
    requires
        new == (p.requests@.map_values(|q: ApiRequest| (Seq::<char>::empty(), q)) + forest_entries(
            p.folder_models(),
            Seq::<char>::empty(),
        )).map_values(|e: (Seq<char>, ApiRequest)| e.1),
        p2.requests@ == new.take(p.requests@.len() as int),
        p2.folder_models() == forest_with_requests(p.folder_models(), new.skip(p.requests@.len() as int)),
    ensures
        p2.requests@ == p.requests@,
        p2.folder_models() == p.folder_models(),
{
    let n = p.requests@.len() as int;
    let top = p.requests@.map_values(|q: ApiRequest| (Seq::<char>::empty(), q));
    let rest = forest_entries(p.folder_models(), Seq::<char>::empty());
    lemma_forest_entry_requests(p.folder_models(), Seq::<char>::empty());
    assert(new.take(n) =~= p.requests@);
    assert(new.skip(n) =~= rest.map_values(|e: (Seq<char>, ApiRequest)| e.1));
    lemma_with_own_requests_forest(p.folder_models());
}

} // verus!
