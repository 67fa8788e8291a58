//! Mutable access into a project's request tree: a request or a folder found
//! by id, borrowed for in-place edits.

use vstd::prelude::*;
use crate::state::project::{
    Folder, FolderModel, Project, first_request, find_request_in, find_request_in_forest, find_folder_in,
    find_folder_in_forest, folder_model, forest_model, string_views, first_request_exec, prepend_id,
    find_request_in_folders, find_folder_in_folders, lemma_find_request_forest_prefix,
    lemma_find_folder_forest_prefix, lemma_forest_model, lemma_forest_model_update, same_besides_tree,
    subtree_requests, forest_requests, subtree_entries, forest_entries, join_path_exec,
};
use crate::state::request::ApiRequest;
use crate::text::str_eq;

verus! {

broadcast use vstd::seq_lib::group_seq_properties;

/// The subtree with the request that [`find_request_in`] finds replaced by
/// `q` (unchanged when there is none).
pub open spec fn replace_req_in(f: FolderModel, id: Seq<char>, q: ApiRequest) -> FolderModel
    decreases f,
{
    match first_request(f.requests, id) {
        Some(k) => FolderModel { requests: f.requests.update(k, q), ..f },
        None => FolderModel { folders: replace_req_in_forest(f.folders, id, q), ..f },
    }
}

/// [`replace_req_in`] over a list of folders: only the first folder that
/// holds a match changes.
pub open spec fn replace_req_in_forest(fs: Seq<FolderModel>, id: Seq<char>, q: ApiRequest) -> Seq<FolderModel>
    decreases fs,
{
    if fs.len() == 0 {
        fs
    } else if find_request_in_forest(fs.drop_last(), id) is Some {
        replace_req_in_forest(fs.drop_last(), id, q).push(fs.last())
    } else {
        fs.drop_last().push(replace_req_in(fs.last(), id, q))
    }
}

/// The subtree with the folder that [`find_folder_in`] finds replaced by `x`
/// (unchanged when there is none).
pub open spec fn replace_folder_in(f: FolderModel, id: Seq<char>, x: FolderModel) -> FolderModel
    decreases f,
{
    if f.id == id {
        x
    } else {
        FolderModel { folders: replace_folder_in_forest(f.folders, id, x), ..f }
    }
}

/// [`replace_folder_in`] over a list of folders: only the first folder whose
/// subtree holds a match changes.
pub open spec fn replace_folder_in_forest(fs: Seq<FolderModel>, id: Seq<char>, x: FolderModel) -> Seq<FolderModel>
    decreases fs,
{
    if fs.len() == 0 {
        fs
    } else if find_folder_in_forest(fs.drop_last(), id) is Some {
        replace_folder_in_forest(fs.drop_last(), id, x).push(fs.last())
    } else {
        fs.drop_last().push(replace_folder_in(fs.last(), id, x))
    }
}

/// When folder `i` is the first whose subtree holds the request, replacing
/// the request in the list replaces it in folder `i` alone.
proof fn lemma_replace_req_forest_at(ms: Seq<FolderModel>, id: Seq<char>, i: int, n: int)
    requires
        0 <= i < n <= ms.len(),
        find_request_in_forest(ms.take(i), id) is None,
        find_request_in(ms[i], id) is Some,
    ensures
        forall|q: ApiRequest| #[trigger] replace_req_in_forest(ms.take(n), id, q)
            == ms.take(n).update(i, replace_req_in(ms[i], id, q)),
    decreases n,
{
    assert(ms.take(n).drop_last() == ms.take(n - 1));
    assert(ms.take(n).last() == ms[n - 1]);
    if n == i + 1 {
        assert forall|q: ApiRequest| #[trigger] replace_req_in_forest(ms.take(n), id, q)
            == ms.take(n).update(i, replace_req_in(ms[i], id, q)) by {
            assert(ms.take(n).drop_last().push(replace_req_in(ms[i], id, q))
                =~= ms.take(n).update(i, replace_req_in(ms[i], id, q)));
        }
    } else {
        lemma_replace_req_forest_at(ms, id, i, n - 1);
        let p = ms.take(n - 1);
        assert(p.take(i + 1).drop_last() == ms.take(i));
        assert(p.take(i + 1).last() == ms[i]);
        assert(find_request_in_forest(p.take(i + 1), id) == find_request_in(ms[i], id));
        lemma_find_request_forest_prefix(p, id, i + 1);
        assert forall|q: ApiRequest| #[trigger] replace_req_in_forest(ms.take(n), id, q)
            == ms.take(n).update(i, replace_req_in(ms[i], id, q)) by {
            assert(replace_req_in_forest(p, id, q).push(ms[n - 1])
                =~= ms.take(n).update(i, replace_req_in(ms[i], id, q)));
        }
    }
}

/// When folder `i` is the first whose subtree holds the folder, replacing the
/// folder in the list replaces it in folder `i` alone.
proof fn lemma_replace_folder_forest_at(ms: Seq<FolderModel>, id: Seq<char>, i: int, n: int)
    requires
        0 <= i < n <= ms.len(),
        find_folder_in_forest(ms.take(i), id) is None,
        find_folder_in(ms[i], id) is Some,
    ensures
        forall|x: FolderModel| #[trigger] replace_folder_in_forest(ms.take(n), id, x)
            == ms.take(n).update(i, replace_folder_in(ms[i], id, x)),
    decreases n,
{
    assert(ms.take(n).drop_last() == ms.take(n - 1));
    assert(ms.take(n).last() == ms[n - 1]);
    if n == i + 1 {
        assert forall|x: FolderModel| #[trigger] replace_folder_in_forest(ms.take(n), id, x)
            == ms.take(n).update(i, replace_folder_in(ms[i], id, x)) by {
            assert(ms.take(n).drop_last().push(replace_folder_in(ms[i], id, x))
                =~= ms.take(n).update(i, replace_folder_in(ms[i], id, x)));
        }
    } else {
        lemma_replace_folder_forest_at(ms, id, i, n - 1);
        let p = ms.take(n - 1);
        assert(p.take(i + 1).drop_last() == ms.take(i));
        assert(p.take(i + 1).last() == ms[i]);
        assert(find_folder_in_forest(p.take(i + 1), id) == find_folder_in(ms[i], id));
        lemma_find_folder_forest_prefix(p, id, i + 1);
        assert forall|x: FolderModel| #[trigger] replace_folder_in_forest(ms.take(n), id, x)
            == ms.take(n).update(i, replace_folder_in(ms[i], id, x)) by {
            assert(replace_folder_in_forest(p, id, x).push(ms[n - 1])
                =~= ms.take(n).update(i, replace_folder_in(ms[i], id, x)));
        }
    }
}

/// Replacing any one folder of a list changes its model at that position
/// only.
proof fn lemma_forest_model_update_all(fs: Seq<Folder>)
    ensures
        forall|i: int, f: Folder| 0 <= i < fs.len() ==> #[trigger] forest_model(fs.update(i, f))
            == forest_model(fs).update(i, folder_model(f)),
{
    assert forall|i: int, f: Folder| 0 <= i < fs.len() implies #[trigger] forest_model(fs.update(i, f))
        == forest_model(fs).update(i, folder_model(f)) by {
        lemma_forest_model_update(fs, i, f);
    }
}

/// The index of the first folder whose subtree holds a request with id `id`.
fn locate_request_folder(fs: &Vec<Folder>, id: &str) -> (r: Option<usize>)
    ensures
        match r {
            Some(i) => i < fs@.len() && find_request_in_forest(forest_model(fs@).take(i as int), id@) is None
                && find_request_in(forest_model(fs@)[i as int], id@) is Some,
            None => find_request_in_forest(forest_model(fs@), id@) is None,
        },
{
    proof {
        lemma_forest_model(fs@);
    }
    let mut i: usize = 0;
    while i < fs.len()
        invariant
            i <= fs@.len(),
            forest_model(fs@).len() == fs@.len(),
            forall|j: int| 0 <= j < fs@.len() ==> #[trigger] forest_model(fs@)[j] == folder_model(fs@[j]),
            find_request_in_forest(forest_model(fs@).take(i as int), id@) is None,
        decreases fs.len() - i,
    {
        let ghost ms = forest_model(fs@);
        proof {
            assert(ms.take(i + 1).drop_last() == ms.take(i as int));
            assert(ms.take(i + 1).last() == ms[i as int]);
            assert(ms[i as int].folders == forest_model(fs@[i as int].folders@));
        }
        let here = match first_request_exec(&fs[i].requests, id) {
            Some(_) => true,
            None => find_request_in_folders(&fs[i].folders, id).is_some(),
        };
        if here {
            return Some(i);
        }
        proof {
            assert(ms[i as int].requests == fs@[i as int].requests@);
            assert(find_request_in(ms[i as int], id@) is None);
            assert(find_request_in_forest(ms.take(i + 1), id@) is None);
        }
        i = i + 1;
    }
    proof {
        assert(forest_model(fs@).take(fs@.len() as int) == forest_model(fs@));
    }
    None
}

/// The index of the first folder whose subtree holds a folder with id `id`.
fn locate_folder_folder(fs: &Vec<Folder>, id: &str) -> (r: Option<usize>)
    ensures
        match r {
            Some(i) => i < fs@.len() && find_folder_in_forest(forest_model(fs@).take(i as int), id@) is None
                && find_folder_in(forest_model(fs@)[i as int], id@) is Some,
            None => find_folder_in_forest(forest_model(fs@), id@) is None,
        },
{
    proof {
        lemma_forest_model(fs@);
    }
    let mut i: usize = 0;
    while i < fs.len()
        invariant
            i <= fs@.len(),
            forest_model(fs@).len() == fs@.len(),
            forall|j: int| 0 <= j < fs@.len() ==> #[trigger] forest_model(fs@)[j] == folder_model(fs@[j]),
            find_folder_in_forest(forest_model(fs@).take(i as int), id@) is None,
        decreases fs.len() - i,
    {
        let ghost ms = forest_model(fs@);
        proof {
            assert(ms.take(i + 1).drop_last() == ms.take(i as int));
            assert(ms.take(i + 1).last() == ms[i as int]);
            assert(ms[i as int].folders == forest_model(fs@[i as int].folders@));
        }
        let here = if str_eq(fs[i].id.as_str(), id) {
            true
        } else {
            find_folder_in_folders(&fs[i].folders, id).is_some()
        };
        if here {
            return Some(i);
        }
        proof {
            assert(ms[i as int].id == fs@[i as int].id@);
            assert(find_folder_in(ms[i as int], id@) is None);
            assert(find_folder_in_forest(ms.take(i + 1), id@) is None);
        }
        i = i + 1;
    }
    proof {
        assert(forest_model(fs@).take(fs@.len() as int) == forest_model(fs@));
    }
    None
}

#[verifier::rlimit(40)]
fn find_request_mut_in_folders<'a>(fs: &'a mut Vec<Folder>, id: &str) -> (r: Option<(Vec<String>, &'a mut ApiRequest)>)
    ensures
        match r {
            Some((c, q)) => find_request_in_forest(forest_model(old(fs)@), id@) == Some((string_views(c@), *q))
                && forest_model(final(fs)@) == replace_req_in_forest(forest_model(old(fs)@), id@, *final(q)),
            None => find_request_in_forest(forest_model(old(fs)@), id@) is None && *final(fs) == *old(fs),
        },
    decreases forest_model(old(fs)@),
{
    let ghost ms = forest_model(fs@);
    let ghost before = fs@;
    let i = match locate_request_folder(fs, id) {
        Some(i) => i,
        None => return None,
    };
    proof {
        lemma_forest_model(fs@);
        lemma_forest_model_update_all(fs@);
        lemma_replace_req_forest_at(ms, id@, i as int, ms.len() as int);
        assert(ms.take(ms.len() as int) == ms);
        assert(ms.take(i + 1).drop_last() == ms.take(i as int));
        assert(ms.take(i + 1).last() == ms[i as int]);
        lemma_find_request_forest_prefix(ms, id@, i + 1);
        assert(ms[i as int] == folder_model(fs@[i as int]));
        assert(decreases_to!(ms => ms[i as int]));
        assert(decreases_to!(ms[i as int] => ms[i as int].folders));
        assert(ms[i as int].folders == forest_model(fs@[i as int].folders@));
    }
    let f = &mut fs[i];
    match first_request_exec(&f.requests, id) {
        Some(k) => {
            let c = prepend_id(&f.id, Vec::new());
            proof {
                assert(string_views(c@) =~= seq![f.id@]);
            }
            Some((c, &mut f.requests[k]))
        },
        None => {
            let head = f.id.clone();
            match find_request_mut_in_folders(&mut f.folders, id) {
                Some((sub, q)) => {
                    let c = prepend_id(&head, sub);
                    Some((c, q))
                },
                None => {
                    proof {
                        assert(false);
                    }
                    None
                },
            }
        },
    }
}

fn find_folder_mut_in_folders<'a>(fs: &'a mut Vec<Folder>, id: &str) -> (r: Option<(Vec<String>, &'a mut Folder)>)
    ensures
        match r {
            Some((c, x)) => find_folder_in_forest(forest_model(old(fs)@), id@) == Some((string_views(c@), folder_model(*x)))
                && forest_model(final(fs)@) == replace_folder_in_forest(forest_model(old(fs)@), id@, folder_model(*final(x))),
            None => find_folder_in_forest(forest_model(old(fs)@), id@) is None && *final(fs) == *old(fs),
        },
    decreases forest_model(old(fs)@),
{
    let ghost ms = forest_model(fs@);
    let i = match locate_folder_folder(fs, id) {
        Some(i) => i,
        None => return None,
    };
    proof {
        lemma_forest_model(fs@);
        lemma_forest_model_update_all(fs@);
        lemma_replace_folder_forest_at(ms, id@, i as int, ms.len() as int);
        assert(ms.take(ms.len() as int) == ms);
        assert(ms.take(i + 1).drop_last() == ms.take(i as int));
        assert(ms.take(i + 1).last() == ms[i as int]);
        lemma_find_folder_forest_prefix(ms, id@, i + 1);
        assert(ms[i as int] == folder_model(fs@[i as int]));
        assert(decreases_to!(ms => ms[i as int]));
        assert(decreases_to!(ms[i as int] => ms[i as int].folders));
        assert(ms[i as int].folders == forest_model(fs@[i as int].folders@));
    }
    let f = &mut fs[i];
    if str_eq(f.id.as_str(), id) {
        let c: Vec<String> = Vec::new();
        proof {
            assert(string_views(c@) =~= Seq::<Seq<char>>::empty());
        }
        Some((c, f))
    } else {
        let head = f.id.clone();
        match find_folder_mut_in_folders(&mut f.folders, id) {
            Some((sub, x)) => {
                let c = prepend_id(&head, sub);
                Some((c, x))
            },
            None => {
                proof {
                    assert(false);
                }
                None
            },
        }
    }
}


/// Replacing the first request with id `id` by one with the same id leaves it
/// the first match.
proof fn lemma_first_request_update(s: Seq<ApiRequest>, id: Seq<char>, k: int, q: ApiRequest)
    requires
        first_request(s, id) == Some(k),
        q.id@ == id,
    ensures
        0 <= k < s.len(),
        first_request(s.update(k, q), id) == Some(k),
    decreases s.len(),
{
    let u = s.update(k, q);
    match first_request(s.drop_last(), id) {
        Some(j) => {
            lemma_first_request_update(s.drop_last(), id, k, q);
            assert(u.drop_last() =~= s.drop_last().update(k, q));
        },
        None => {
            assert(u.drop_last() =~= s.drop_last());
            assert(u.last() == q);
        },
    }
}

/// After the replacement, the search finds the new request at the same place.
proof fn lemma_find_after_replace_in(f: FolderModel, id: Seq<char>, q: ApiRequest)
    requires
        find_request_in(f, id) is Some,
        q.id@ == id,
    ensures
        find_request_in(replace_req_in(f, id, q), id) == Some((find_request_in(f, id).unwrap().0, q)),
    decreases f,
{
    match first_request(f.requests, id) {
        Some(k) => {
            lemma_first_request_update(f.requests, id, k, q);
        },
        None => {
            lemma_find_after_replace_in_forest(f.folders, id, q);
        },
    }
}

/// [`lemma_find_after_replace_in`] over a list of folders.
proof fn lemma_find_after_replace_in_forest(fs: Seq<FolderModel>, id: Seq<char>, q: ApiRequest)
    requires
        find_request_in_forest(fs, id) is Some,
        q.id@ == id,
    ensures
        find_request_in_forest(replace_req_in_forest(fs, id, q), id)
            == Some((find_request_in_forest(fs, id).unwrap().0, q)),
    decreases fs,
{
    let u = replace_req_in_forest(fs, id, q);
    if find_request_in_forest(fs.drop_last(), id) is Some {
        lemma_find_after_replace_in_forest(fs.drop_last(), id, q);
        assert(u.drop_last() =~= replace_req_in_forest(fs.drop_last(), id, q));
    } else {
        assert(u.drop_last() =~= fs.drop_last());
        assert(u.last() == replace_req_in(fs.last(), id, q));
        lemma_find_after_replace_in(fs.last(), id, q);
    }
}

/// After the replacement, the search finds the new folder at the same place.
proof fn lemma_find_folder_after_replace_in(f: FolderModel, id: Seq<char>, x: FolderModel)
    requires
        find_folder_in(f, id) is Some,
        x.id == id,
    ensures
        find_folder_in(replace_folder_in(f, id, x), id) == Some((find_folder_in(f, id).unwrap().0, x)),
    decreases f,
{
    if f.id != id {
        lemma_find_folder_after_replace_in_forest(f.folders, id, x);
    }
}

/// [`lemma_find_folder_after_replace_in`] over a list of folders.
proof fn lemma_find_folder_after_replace_in_forest(fs: Seq<FolderModel>, id: Seq<char>, x: FolderModel)
    requires
        find_folder_in_forest(fs, id) is Some,
        x.id == id,
    ensures
        find_folder_in_forest(replace_folder_in_forest(fs, id, x), id)
            == Some((find_folder_in_forest(fs, id).unwrap().0, x)),
    decreases fs,
{
    let u = replace_folder_in_forest(fs, id, x);
    if find_folder_in_forest(fs.drop_last(), id) is Some {
        lemma_find_folder_after_replace_in_forest(fs.drop_last(), id, x);
        assert(u.drop_last() =~= replace_folder_in_forest(fs.drop_last(), id, x));
    } else {
        assert(u.drop_last() =~= fs.drop_last());
        assert(u.last() == replace_folder_in(fs.last(), id, x));
        lemma_find_folder_after_replace_in(fs.last(), id, x);
    }
}

/// A request edited through [`Project::find_request_mut`] that keeps its id
/// is what [`Project::find_request`] then finds, under the same folder chain.
pub proof fn law_find_request_mut_reads_back(p: Project, p2: Project, id: Seq<char>, q: ApiRequest)
    requires
        p.spec_find_request(id) is Some,
        q.id@ == id,
        (p2.requests@, p2.folder_models()) == p.spec_replace_request(id, q),
    ensures
        p2.spec_find_request(id) == Some((p.spec_find_request(id).unwrap().0, q)),
{
    match first_request(p.requests@, id) {
        Some(k) => {
            lemma_first_request_update(p.requests@, id, k, q);
        },
        None => {
            lemma_find_after_replace_in_forest(p.folder_models(), id, q);
        },
    }
}

/// A folder edited through [`Project::find_folder_mut`] that keeps its id is
/// what [`Project::find_folder`] then finds, under the same chain.
pub proof fn law_find_folder_mut_reads_back(ms: Seq<FolderModel>, id: Seq<char>, x: FolderModel)
    requires
        find_folder_in_forest(ms, id) is Some,
        x.id == id,
    ensures
        find_folder_in_forest(replace_folder_in_forest(ms, id, x), id)
            == Some((find_folder_in_forest(ms, id).unwrap().0, x)),
{
    lemma_find_folder_after_replace_in_forest(ms, id, x);
}

/// A subtree with its requests, in display order, replaced by `new` (one
/// request per request of the subtree; everything else unchanged).
pub open spec fn subtree_with_requests(f: FolderModel, new: Seq<ApiRequest>) -> FolderModel
    decreases f,
{
    FolderModel {
        requests: new.take(f.requests.len() as int),
        folders: forest_with_requests(f.folders, new.skip(f.requests.len() as int)),
        ..f
    }
}

/// [`subtree_with_requests`] over a list of folders, taking the requests of
/// each subtree in turn.
pub open spec fn forest_with_requests(fs: Seq<FolderModel>, new: Seq<ApiRequest>) -> Seq<FolderModel>
    decreases fs,
{
    if fs.len() == 0 {
        fs
    } else {
        let k = subtree_requests(fs[0]).len() as int;
        seq![subtree_with_requests(fs[0], new.take(k))] + forest_with_requests(fs.drop_first(), new.skip(k))
    }
}

/// The `(path, request)` values of borrowed entries.
pub open spec fn mut_entry_views(v: Seq<(String, &mut ApiRequest)>) -> Seq<(Seq<char>, ApiRequest)> {
    v.map_values(|e: (String, &mut ApiRequest)| (e.0@, *e.1))
}

/// The entries of a list of folders, the first folder's subtree first.
proof fn lemma_forest_entries_front(fs: Seq<FolderModel>, p: Seq<char>)
    requires
        fs.len() > 0,
    ensures
        forest_entries(fs, p) == subtree_entries(fs[0], p) + forest_entries(fs.drop_first(), p),
    decreases fs.len(),
{
    if fs.len() == 1 {
        assert(fs.drop_last() =~= Seq::<FolderModel>::empty());
        assert(fs.drop_first() =~= Seq::<FolderModel>::empty());
        assert(forest_entries(fs.drop_last(), p) =~= Seq::<(Seq<char>, ApiRequest)>::empty());
        assert(forest_entries(fs, p) =~= subtree_entries(fs[0], p));
        assert(forest_entries(fs.drop_first(), p) =~= Seq::<(Seq<char>, ApiRequest)>::empty());
    } else {
        lemma_forest_entries_front(fs.drop_last(), p);
        assert(fs.drop_last().drop_first() =~= fs.drop_first().drop_last());
        assert(fs.drop_first().last() == fs.last());
        assert(fs.drop_last()[0] == fs[0]);
        assert(forest_entries(fs, p) =~= subtree_entries(fs[0], p) + forest_entries(fs.drop_first(), p));
    }
}

/// A subtree has one entry per request.
proof fn lemma_subtree_entries_len(f: FolderModel, p: Seq<char>)
    ensures
        subtree_entries(f, p).len() == subtree_requests(f).len(),
    decreases f,
{
    lemma_forest_entries_len(f.folders, crate::state::project::join_path(p, f.name));
}

/// A list of folders has one entry per request.
proof fn lemma_forest_entries_len(fs: Seq<FolderModel>, p: Seq<char>)
    ensures
        forest_entries(fs, p).len() == forest_requests(fs).len(),
    decreases fs,
{
    if fs.len() > 0 {
        lemma_forest_entries_len(fs.drop_last(), p);
        lemma_subtree_entries_len(fs.last(), p);
    }
}

fn push_entries_mut<'a>(out: &mut Vec<(String, &'a mut ApiRequest)>, s: &'a mut [ApiRequest], path: &String)
    ensures
        final(out)@.len() == old(out)@.len() + old(s)@.len(),
        forall|i: int| 0 <= i < old(out)@.len() ==> final(out)@[i] == old(out)@[i],
        forall|i: int| 0 <= i < old(s)@.len() ==> (#[trigger] final(out)@[old(out)@.len() + i]).0 == *path,
        forall|i: int| 0 <= i < old(s)@.len() ==> *(#[trigger] final(out)@[old(out)@.len() + i]).1 == old(s)@[i],
        final(s)@ == Seq::new(old(s)@.len(), |i: int| *final(final(out)@[old(out)@.len() + i].1)),
    decreases old(s)@.len(),
{
    if s.len() == 0 {
        assert(final(s)@ =~= Seq::new(0, |i: int| *final(final(out)@[old(out)@.len() + i].1)));
        return;
    }
    let ghost s0 = s@;
    let ghost n = out@.len();
    let (h, t) = s.split_at_mut(1);
    let first = &mut h[0];
    assert(*first == s0[0]);
    let p = path.clone();
    out.push((p, first));
    let ghost t0 = t@;
    assert(forall|i: int| 0 <= i < t0.len() ==> t0[i] == s0[i + 1]);
    push_entries_mut(out, t, path);
    assert(*out@[n as int].1 == s0[0]);
    assert forall|i: int| 0 <= i < old(s)@.len() implies (#[trigger] final(out)@[old(out)@.len() + i]).0 == *path
        && *final(out)@[old(out)@.len() + i].1 == old(s)@[i] by {
        if i > 0 {
            assert(*final(out)@[n + 1 + (i - 1)].1 == t0[i - 1]);
            assert(final(out)@[n + 1 + (i - 1)].0 == *path);
        }
    }
}


/// The model of a list of folders, taken from the front.
proof fn lemma_forest_model_cons(f: Folder, rest: Seq<Folder>)
    ensures
        forest_model(seq![f] + rest) == seq![folder_model(f)] + forest_model(rest),
{
    lemma_forest_model(seq![f] + rest);
    lemma_forest_model(rest);
    assert(forest_model(seq![f] + rest) =~= seq![folder_model(f)] + forest_model(rest));
}

/// The model of a list of folders without its first folder.
proof fn lemma_forest_model_drop_first(fs: Seq<Folder>)
    requires
        fs.len() > 0,
    ensures
        forest_model(fs.subrange(1, fs.len() as int)) == forest_model(fs).drop_first(),
{
    lemma_forest_model(fs);
    lemma_forest_model(fs.subrange(1, fs.len() as int));
    assert(forest_model(fs.subrange(1, fs.len() as int)) =~= forest_model(fs).drop_first());
}

#[verifier::rlimit(60)]
fn collect_entries_mut<'a>(fs: &'a mut [Folder], prefix: &String, out: &mut Vec<(String, &'a mut ApiRequest)>)
    ensures
        final(out)@.len() == old(out)@.len() + forest_entries(forest_model(old(fs)@), prefix@).len(),
        forall|i: int| 0 <= i < old(out)@.len() ==> final(out)@[i] == old(out)@[i],
        forall|i: int| 0 <= i < forest_entries(forest_model(old(fs)@), prefix@).len() ==>
            ((#[trigger] final(out)@[old(out)@.len() + i]).0@, *final(out)@[old(out)@.len() + i].1)
                == forest_entries(forest_model(old(fs)@), prefix@)[i],
        forest_model(final(fs)@) == forest_with_requests(forest_model(old(fs)@),
            Seq::new(forest_entries(forest_model(old(fs)@), prefix@).len(),
                |i: int| *final(final(out)@[old(out)@.len() + i].1))),
    decreases forest_model(old(fs)@),
{
    let ghost n0 = out@.len();
    let ghost fs0 = fs@;
    let ghost ms = forest_model(fs@);
    let ghost ffs = final(fs)@;
    if fs.len() == 0 {
        assert(forest_entries(ms, prefix@) =~= Seq::<(Seq<char>, ApiRequest)>::empty());
        return;
    }
    proof {
        lemma_forest_model(fs@);
        lemma_forest_entries_front(ms, prefix@);
        lemma_forest_model_drop_first(fs@);
        assert(ms[0] == folder_model(fs@[0]));
        assert(decreases_to!(ms => ms[0]));
        assert(decreases_to!(ms[0] => ms[0].folders));
        assert(ms[0].folders == forest_model(fs@[0].folders@));
        assert(decreases_to!(ms => ms.subrange(1, ms.len() as int)));
        assert(ms.drop_first() == ms.subrange(1, ms.len() as int));
    }
    let (h, t) = fs.split_at_mut(1);
    let ghost ft = final(t)@;
    let f = &mut h[0];
    let ghost ff = *final(f);
    let path = join_path_exec(prefix, &f.name);
    proof {
        lemma_subtree_entries_len(ms[0], prefix@);
        assert(path@ == crate::state::project::join_path(prefix@, ms[0].name));
    }
    let rs = f.requests.as_mut_slice();
    let ghost frs = final(rs)@;
    let subs = f.folders.as_mut_slice();
    let ghost fsubs = final(subs)@;
    push_entries_mut(out, rs, &path);
    let ghost n1 = out@.len();
    let ghost mid1 = out@;
    collect_entries_mut(subs, &path, out);
    let ghost n2 = out@.len();
    let ghost mid2 = out@;
    collect_entries_mut(t, prefix, out);
    proof {
        let fm = ms[0];
        let rlen = fm.requests.len() as int;
        let sub = forest_entries(fm.folders, path@);
        let rest = forest_entries(ms.drop_first(), prefix@);
        let all = forest_entries(ms, prefix@);
        assert(subtree_entries(fm, prefix@) == fm.requests.map_values(|r: ApiRequest| (path@, r)) + sub);
        assert(all == fm.requests.map_values(|r: ApiRequest| (path@, r)) + sub + rest);
        assert(n1 == n0 + rlen);
        assert(n2 == n1 + sub.len());
        assert forall|i: int| 0 <= i < all.len() implies
            ((#[trigger] final(out)@[n0 + i]).0@, *final(out)@[n0 + i].1) == all[i] by {
            if i < rlen {
                assert(final(out)@[n0 + i] == out@[n0 + i]);
            } else if i < rlen + sub.len() {
                assert(final(out)@[n1 + (i - rlen)] == out@[n1 + (i - rlen)]);
            } else {
                assert(final(out)@[n2 + (i - rlen - sub.len())] == out@[n2 + (i - rlen - sub.len())]);
            }
        }
        let fin = Seq::new(all.len(), |i: int| *final(final(out)@[n0 + i].1));
        let k = subtree_requests(fm).len() as int;
        assert(k == rlen + sub.len());
        assert(fin.take(k).take(rlen) =~= Seq::new(rlen as nat, |i: int| *final(final(out)@[n0 + i].1)));
        assert(fin.take(k).skip(rlen) =~= Seq::new(sub.len(), |i: int| *final(final(out)@[n1 + i].1)));
        assert(fin.skip(k) =~= Seq::new(rest.len(), |i: int| *final(final(out)@[n2 + i].1)));
        assert(forall|i: int| n0 <= i < n1 ==> mid1[i] == mid2[i]);
        assert(forall|i: int| n0 <= i < n2 ==> mid2[i] == final(out)@[i]);
        assert(frs == Seq::new(rlen as nat, |i: int| *final(mid1[n0 + i].1)));
        assert(frs =~= Seq::new(rlen as nat, |i: int| *final(final(out)@[n0 + i].1)));
        assert(forest_model(fsubs) == forest_with_requests(fm.folders, Seq::new(sub.len(), |i: int| *final(mid2[n1 + i].1))));
        assert(Seq::new(sub.len(), |i: int| *final(mid2[n1 + i].1)) =~= Seq::new(sub.len(), |i: int| *final(final(out)@[n1 + i].1)));
        assert(folder_model(ff) == subtree_with_requests(fm, fin.take(k)));
        assert(ffs =~= seq![ff] + ft);
        lemma_forest_model_cons(ff, ft);
    }
}


/// Entries with their requests replaced, in order, by `new`; the paths stay.
pub open spec fn entries_with_requests(es: Seq<(Seq<char>, ApiRequest)>, new: Seq<ApiRequest>) -> Seq<(Seq<char>, ApiRequest)> {
    Seq::new(es.len(), |i: int| (es[i].0, new[i]))
}

/// The entries of a subtree whose requests were replaced are the old paths
/// with the new requests.
proof fn lemma_subtree_entries_with(f: FolderModel, new: Seq<ApiRequest>, p: Seq<char>)
    requires
        new.len() == subtree_requests(f).len(),
    ensures
        subtree_entries(subtree_with_requests(f, new), p) == entries_with_requests(subtree_entries(f, p), new),
    decreases f,
{
    let path = crate::state::project::join_path(p, f.name);
    let r = f.requests.len() as int;
    let g = subtree_with_requests(f, new);
    lemma_forest_entries_with(f.folders, new.skip(r), path);
    lemma_forest_entries_len(f.folders, path);
    let own = f.requests.map_values(|q: ApiRequest| (path, q));
    let sub = forest_entries(f.folders, path);
    assert(subtree_entries(f, p) == own + sub);
    assert(subtree_entries(g, p) == new.take(r).map_values(|q: ApiRequest| (path, q))
        + entries_with_requests(sub, new.skip(r)));
    assert(subtree_entries(g, p) =~= entries_with_requests(own + sub, new));
}

/// [`lemma_subtree_entries_with`] over a list of folders.
proof fn lemma_forest_entries_with(fs: Seq<FolderModel>, new: Seq<ApiRequest>, p: Seq<char>)
    requires
        new.len() == forest_requests(fs).len(),
    ensures
        forest_with_requests(fs, new).len() == fs.len(),
        forest_entries(forest_with_requests(fs, new), p) == entries_with_requests(forest_entries(fs, p), new),
    decreases fs,
{
    if fs.len() == 0 {
        assert(entries_with_requests(forest_entries(fs, p), new) =~= Seq::<(Seq<char>, ApiRequest)>::empty());
    } else {
        let k = subtree_requests(fs[0]).len() as int;
        let res = forest_with_requests(fs, new);
        lemma_forest_entries_len(fs, p);
        lemma_forest_entries_front(fs, p);
        lemma_subtree_entries_len(fs[0], p);
        lemma_forest_entries_len(fs.drop_first(), p);
        assert(decreases_to!(fs => fs[0]));
        lemma_subtree_entries_with(fs[0], new.take(k), p);
        lemma_forest_entries_with(fs.drop_first(), new.skip(k), p);
        assert(res.len() == fs.len());
        assert(res[0] == subtree_with_requests(fs[0], new.take(k)));
        assert(res.drop_first() =~= forest_with_requests(fs.drop_first(), new.skip(k)));
        lemma_forest_entries_front(res, p);
        assert(forest_entries(res, p) =~= entries_with_requests(forest_entries(fs, p), new));
    }
}

/// Requests edited through [`Project::iter_all_requests_mut`] are what
/// [`Project::iter_all_requests`] then lists, each under its old path.
pub proof fn law_iter_all_requests_mut_reads_back(p: Project, p2: Project, new: Seq<ApiRequest>)
    requires
        new.len() == p.requests@.len() + forest_entries(p.folder_models(), Seq::<char>::empty()).len(),
        p2.requests@ == new.take(p.requests@.len() as int),
        p2.folder_models() == forest_with_requests(p.folder_models(), new.skip(p.requests@.len() as int)),
    ensures
        p2.requests@.map_values(|q: ApiRequest| (Seq::<char>::empty(), q)) + forest_entries(p2.folder_models(), Seq::<char>::empty())
            == entries_with_requests(p.requests@.map_values(|q: ApiRequest| (Seq::<char>::empty(), q))
                + forest_entries(p.folder_models(), Seq::<char>::empty()), new),
{
    let n = p.requests@.len() as int;
    lemma_forest_entries_len(p.folder_models(), Seq::<char>::empty());
    lemma_forest_entries_with(p.folder_models(), new.skip(n), Seq::<char>::empty());
    assert(p2.requests@.map_values(|q: ApiRequest| (Seq::<char>::empty(), q)) + forest_entries(p2.folder_models(), Seq::<char>::empty())
        =~= entries_with_requests(p.requests@.map_values(|q: ApiRequest| (Seq::<char>::empty(), q))
            + forest_entries(p.folder_models(), Seq::<char>::empty()), new));
}

impl Project {
    /// [`Project::find_request`]'s request replaced by `q` in the model:
    /// the top-level requests and the folder subtrees.
    pub open spec fn spec_replace_request(&self, id: Seq<char>, q: ApiRequest) -> (Seq<ApiRequest>, Seq<FolderModel>) {
        match first_request(self.requests@, id) {
            Some(k) => (self.requests@.update(k, q), self.folder_models()),
            None => (self.requests@, replace_req_in_forest(self.folder_models(), id, q)),
        }
    }

    /// Borrow a request by id for editing, with the folder-id chain (root →
    /// parent) that leads to it; the same request [`Project::find_request`]
    /// finds. What is written through the borrow lands in that place of the
    /// tree, and nothing else changes.
    pub fn find_request_mut(&mut self, id: &str) -> (r: Option<(Vec<String>, &mut ApiRequest)>)
        ensures
            match r {
                Some((c, q)) => old(self).spec_find_request(id@) == Some((string_views(c@), *q))
                    && (final(self).requests@, final(self).folder_models()) == old(self).spec_replace_request(id@, *final(q))
                    && same_besides_tree(*old(self), *final(self)),
                None => old(self).spec_find_request(id@) is None && *final(self) == *old(self),
            },
    {
        match first_request_exec(&self.requests, id) {
            Some(k) => {
                let c: Vec<String> = Vec::new();
                assert(string_views(c@) =~= Seq::<Seq<char>>::empty());
                Some((c, &mut self.requests[k]))
            },
            None => find_request_mut_in_folders(&mut self.folders, id),
        }
    }

    /// Every request of the project, borrowed for editing, with the
    /// ` > `-joined folder path of its owner (empty for top-level requests),
    /// in the order of [`Project::iter_all_requests`]. What is written through
    /// each borrow lands in that request's place; the tree's shape and every
    /// other field stay as they were.
    pub fn iter_all_requests_mut(&mut self) -> (r: Vec<(String, &mut ApiRequest)>)
        ensures
            mut_entry_views(r@) == old(self).requests@.map_values(|q: ApiRequest| (Seq::<char>::empty(), q))
                + forest_entries(old(self).folder_models(), Seq::<char>::empty()),
            final(self).requests@ == Seq::new(old(self).requests@.len(), |i: int| *final(r@[i].1)),
            final(self).folder_models() == forest_with_requests(old(self).folder_models(),
                Seq::new(forest_entries(old(self).folder_models(), Seq::<char>::empty()).len(),
                    |i: int| *final(r@[old(self).requests@.len() + i].1))),
            same_besides_tree(*old(self), *final(self)),
    {
        let ghost top = self.requests@;
        let ghost ms = self.folder_models();
        let mut out: Vec<(String, &mut ApiRequest)> = Vec::new();
        let empty = String::new();
        assert(empty@ == Seq::<char>::empty());
        let rs = self.requests.as_mut_slice();
        let ghost frs = final(rs)@;
        let subs = self.folders.as_mut_slice();
        let ghost fsubs = final(subs)@;
        push_entries_mut(&mut out, rs, &empty);
        let ghost mid = out@;
        collect_entries_mut(subs, &empty, &mut out);
        proof {
            let n = top.len() as int;
            let all = top.map_values(|q: ApiRequest| (Seq::<char>::empty(), q)) + forest_entries(ms, Seq::<char>::empty());
            assert(forall|i: int| 0 <= i < n ==> mid[i] == out@[i]);
            assert forall|i: int| 0 <= i < all.len() implies #[trigger] mut_entry_views(out@)[i] == all[i] by {
                if i < n {
                    assert(out@[i] == mid[i]);
                    assert(mid[0 + i].0 == empty);
                    assert(*mid[0 + i].1 == top[i]);
                    assert(all[i] == (Seq::<char>::empty(), top[i]));
                } else {
                    let j = i - n;
                    assert(all[i] == forest_entries(ms, Seq::<char>::empty())[j]);
                    assert((out@[n + j].0@, *out@[n + j].1) == forest_entries(ms, empty@)[j]);
                }
            }
            assert(mut_entry_views(out@) =~= all);
            assert(frs =~= Seq::new(top.len(), |i: int| *final(out@[i].1)));
        }
        out
    }

    /// Borrow a folder by id for editing (anywhere in the tree, pre-order),
    /// with its ancestor-id chain (root → parent);
    /// the same folder [`Project::find_folder`] finds. What is written
    /// through the borrow lands in that place of the tree.
    pub fn find_folder_mut(&mut self, id: &str) -> (r: Option<(Vec<String>, &mut Folder)>)
        ensures
            match r {
                Some((c, x)) => find_folder_in_forest(old(self).folder_models(), id@) == Some((string_views(c@), folder_model(*x)))
                    && final(self).folder_models() == replace_folder_in_forest(old(self).folder_models(), id@, folder_model(*final(x)))
                    && final(self).requests == old(self).requests
                    && same_besides_tree(*old(self), *final(self)),
                None => find_folder_in_forest(old(self).folder_models(), id@) is None && *final(self) == *old(self),
            },
    {
        find_folder_mut_in_folders(&mut self.folders, id)
    }
}

}
