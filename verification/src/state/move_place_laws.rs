//! Where moves put things, and what they leave alone: moving a request keeps
//! the folder tree's shape and lands the request at the place asked for;
//! moving a folder keeps every folder and lands it at the place asked for.

use vstd::prelude::*;
use crate::state::project::{
    FolderModel, MoveTarget, drop_pos, find_folder_in, find_folder_in_forest, first_request, insert_rel_in,
    insert_rel_in_forest, lemma_first_request_bound, place_relative, place_request, push_req_in,
    push_req_in_forest, spec_move_request, spec_take_request, take_req_in, take_req_in_forest,
};
use crate::state::move_laws::lemma_push_iff_found_forest;
use crate::state::request::ApiRequest;

verus! {

/// A folder subtree with every request left out: ids, names, settings and
/// nesting only.
pub open spec fn shape(f: FolderModel) -> FolderModel
    decreases f,
{
    FolderModel { requests: Seq::empty(), folders: shape_forest(f.folders), ..f }
}

/// [`shape`] of each folder of a list.
pub open spec fn shape_forest(fs: Seq<FolderModel>) -> Seq<FolderModel>
    decreases fs,
{
    if fs.len() == 0 {
        Seq::empty()
    } else {
        shape_forest(fs.drop_last()).push(shape(fs.last()))
    }
}

proof fn lemma_shape_push(fs: Seq<FolderModel>, f: FolderModel)
    ensures
        shape_forest(fs.push(f)) == shape_forest(fs).push(shape(f)),
{
    assert(fs.push(f).drop_last() =~= fs);
}

proof fn lemma_take_req_shape(f: FolderModel, id: Seq<char>)
    ensures
        take_req_in(f, id) matches Some((f2, r)) ==> shape(f2) == shape(f) && r.id@ == id,
    decreases f,
{
    lemma_first_request_bound(f.requests, id);
    lemma_take_req_shape_forest(f.folders, id);
}

proof fn lemma_take_req_shape_forest(fs: Seq<FolderModel>, id: Seq<char>)
    ensures
        take_req_in_forest(fs, id) matches Some((fs2, r)) ==> shape_forest(fs2) == shape_forest(fs) && r.id@ == id,
    decreases fs,
{
    if fs.len() > 0 {
        lemma_take_req_shape_forest(fs.drop_last(), id);
        lemma_take_req_shape(fs.last(), id);
        match take_req_in_forest(fs.drop_last(), id) {
            Some((p, _)) => lemma_shape_push(p, fs.last()),
            None => if let Some((f2, _)) = take_req_in(fs.last(), id) {
                lemma_shape_push(fs.drop_last(), f2);
            },
        }
    }
}

proof fn lemma_push_req_shape(f: FolderModel, fid: Seq<char>, req: ApiRequest)
    ensures
        push_req_in(f, fid, req) matches Some(f2) ==> shape(f2) == shape(f),
    decreases f,
{
    lemma_push_req_shape_forest(f.folders, fid, req);
}

proof fn lemma_push_req_shape_forest(fs: Seq<FolderModel>, fid: Seq<char>, req: ApiRequest)
    ensures
        push_req_in_forest(fs, fid, req) matches Some(fs2) ==> shape_forest(fs2) == shape_forest(fs),
    decreases fs,
{
    if fs.len() > 0 {
        lemma_push_req_shape_forest(fs.drop_last(), fid, req);
        lemma_push_req_shape(fs.last(), fid, req);
        match push_req_in_forest(fs.drop_last(), fid, req) {
            Some(p) => lemma_shape_push(p, fs.last()),
            None => if let Some(f2) = push_req_in(fs.last(), fid, req) {
                lemma_shape_push(fs.drop_last(), f2);
            },
        }
    }
}

proof fn lemma_insert_rel_shape(f: FolderModel, t: Seq<char>, req: ApiRequest, before: bool)
    ensures
        insert_rel_in(f, t, req, before) matches Some(f2) ==> shape(f2) == shape(f),
    decreases f,
{
    lemma_insert_rel_shape_forest(f.folders, t, req, before);
}

proof fn lemma_insert_rel_shape_forest(fs: Seq<FolderModel>, t: Seq<char>, req: ApiRequest, before: bool)
    ensures
        insert_rel_in_forest(fs, t, req, before) matches Some(fs2) ==> shape_forest(fs2) == shape_forest(fs),
    decreases fs,
{
    if fs.len() > 0 {
        lemma_insert_rel_shape_forest(fs.drop_last(), t, req, before);
        lemma_insert_rel_shape(fs.last(), t, req, before);
        match insert_rel_in_forest(fs.drop_last(), t, req, before) {
            Some(p) => lemma_shape_push(p, fs.last()),
            None => if let Some(f2) = insert_rel_in(fs.last(), t, req, before) {
                lemma_shape_push(fs.drop_last(), f2);
            },
        }
    }
}

/// The request a take removes is the one asked for.
proof fn lemma_take_request_facts(reqs: Seq<ApiRequest>, fs: Seq<FolderModel>, id: Seq<char>)
    ensures
        spec_take_request(reqs, fs, id) matches Some((_, fs2, q)) ==> shape_forest(fs2) == shape_forest(fs)
            && q.id@ == id,
{
    lemma_first_request_bound(reqs, id);
    lemma_take_req_shape_forest(fs, id);
}

/// Moving a request, wherever to and whether or not it succeeds, leaves the
/// folder tree's shape (every folder, its fields and its place) as it was:
/// only requests move.
pub proof fn law_move_request_keeps_folders(
    reqs: Seq<ApiRequest>,
    fs: Seq<FolderModel>,
    req_id: Seq<char>,
    dest: MoveTarget,
)
    ensures
        shape_forest(spec_move_request(reqs, fs, req_id, dest).1) == shape_forest(fs),
{
    lemma_take_request_facts(reqs, fs, req_id);
    if let Some((r2, f2, q)) = spec_take_request(reqs, fs, req_id) {
        match dest {
            MoveTarget::IntoFolder(d) => lemma_push_req_shape_forest(f2, d@, q),
            MoveTarget::BeforeRequest(t) => lemma_insert_rel_shape_forest(f2, t@, q, true),
            MoveTarget::AfterRequest(t) => lemma_insert_rel_shape_forest(f2, t@, q, false),
            MoveTarget::ToRoot => {},
        }
    }
}

/// Request `id` sits directly before (or after) request `t` in `s`.
pub open spec fn next_to(s: Seq<ApiRequest>, t: Seq<char>, id: Seq<char>, before: bool) -> bool {
    exists|i: int|
        0 <= i && i + 1 < s.len() && #[trigger] s[i].id@ == (if before { id } else { t }) && s[i + 1].id@ == (
        if before {
            t
        } else {
            id
        })
}

/// Some folder of the subtree holds request `id` directly before (or after)
/// request `t`.
pub open spec fn next_to_in(f: FolderModel, t: Seq<char>, id: Seq<char>, before: bool) -> bool
    decreases f,
{
    next_to(f.requests, t, id, before) || next_to_in_forest(f.folders, t, id, before)
}

/// [`next_to_in`] for some folder of a list.
pub open spec fn next_to_in_forest(fs: Seq<FolderModel>, t: Seq<char>, id: Seq<char>, before: bool) -> bool
    decreases fs,
{
    fs.len() > 0 && (next_to_in_forest(fs.drop_last(), t, id, before) || next_to_in(fs.last(), t, id, before))
}

proof fn lemma_insert_next_to(s: Seq<ApiRequest>, t: Seq<char>, q: ApiRequest, before: bool)
    requires
        first_request(s, t) is Some,
    ensures
        next_to(s.insert(drop_pos(first_request(s, t).unwrap(), before), q), t, q.id@, before),
{
    lemma_first_request_bound(s, t);
    let p = first_request(s, t).unwrap();
    let s2 = s.insert(drop_pos(p, before), q);
    if before {
        assert(s2[p] == q && s2[p + 1] == s[p]);
    } else {
        assert(s2[p] == s[p] && s2[p + 1] == q);
    }
}

proof fn lemma_insert_rel_lands(f: FolderModel, t: Seq<char>, req: ApiRequest, before: bool)
    ensures
        insert_rel_in(f, t, req, before) matches Some(f2) ==> next_to_in(f2, t, req.id@, before),
    decreases f,
{
    lemma_insert_rel_lands_forest(f.folders, t, req, before);
    if first_request(f.requests, t) is Some {
        lemma_insert_next_to(f.requests, t, req, before);
    }
}

proof fn lemma_insert_rel_lands_forest(fs: Seq<FolderModel>, t: Seq<char>, req: ApiRequest, before: bool)
    ensures
        insert_rel_in_forest(fs, t, req, before) matches Some(fs2) ==> next_to_in_forest(fs2, t, req.id@, before),
    decreases fs,
{
    if fs.len() > 0 {
        lemma_insert_rel_lands_forest(fs.drop_last(), t, req, before);
        lemma_insert_rel_lands(fs.last(), t, req, before);
        match insert_rel_in_forest(fs.drop_last(), t, req, before) {
            Some(p) => {
                assert(p.push(fs.last()).drop_last() =~= p);
            },
            None => if let Some(f2) = insert_rel_in(fs.last(), t, req, before) {
                assert(fs.drop_last().push(f2).drop_last() =~= fs.drop_last());
            },
        }
    }
}

proof fn lemma_push_req_lands(f: FolderModel, fid: Seq<char>, req: ApiRequest)
    ensures
        push_req_in(f, fid, req) matches Some(f2) ==> (find_folder_in(f2, fid) matches Some((_, x))
            && x.requests.len() > 0 && x.requests.last() == req),
    decreases f,
{
    lemma_push_req_lands_forest(f.folders, fid, req);
}

proof fn lemma_push_req_lands_forest(fs: Seq<FolderModel>, fid: Seq<char>, req: ApiRequest)
    ensures
        push_req_in_forest(fs, fid, req) matches Some(fs2) ==> (find_folder_in_forest(fs2, fid) matches Some((_, x))
            && x.requests.len() > 0 && x.requests.last() == req),
    decreases fs,
{
    if fs.len() > 0 {
        lemma_push_req_lands_forest(fs.drop_last(), fid, req);
        lemma_push_req_lands(fs.last(), fid, req);
        lemma_push_iff_found_forest(fs.drop_last(), fid, req);
        match push_req_in_forest(fs.drop_last(), fid, req) {
            Some(p) => {
                assert(p.push(fs.last()).drop_last() =~= p);
            },
            None => if let Some(f2) = push_req_in(fs.last(), fid, req) {
                assert(fs.drop_last().push(f2).drop_last() =~= fs.drop_last());
            },
        }
    }
}

/// A request moved into a folder that exists lands last among that folder's
/// requests.
pub proof fn law_move_into_folder_lands_last(
    reqs: Seq<ApiRequest>,
    fs: Seq<FolderModel>,
    req_id: Seq<char>,
    d: String,
)
    requires
        spec_move_request(reqs, fs, req_id, MoveTarget::IntoFolder(d)).2,
    ensures
        find_folder_in_forest(spec_move_request(reqs, fs, req_id, MoveTarget::IntoFolder(d)).1, d@) matches Some((_, x))
            && x.requests.len() > 0 && x.requests.last().id@ == req_id,
{
    lemma_take_request_facts(reqs, fs, req_id);
    if let Some((r2, f2, q)) = spec_take_request(reqs, fs, req_id) {
        lemma_push_req_lands_forest(f2, d@, q);
    }
}

/// A request moved before (or after) another request that exists lands right
/// next to it: in the top-level list or in the folder that holds the target.
pub proof fn law_move_next_to_lands_adjacent(
    reqs: Seq<ApiRequest>,
    fs: Seq<FolderModel>,
    req_id: Seq<char>,
    t: String,
    before: bool,
)
    requires
        spec_move_request(
            reqs,
            fs,
            req_id,
            if before { MoveTarget::BeforeRequest(t) } else { MoveTarget::AfterRequest(t) },
        ).2,
    ensures
        ({
            let (r3, f3, _) = spec_move_request(
                reqs,
                fs,
                req_id,
                if before { MoveTarget::BeforeRequest(t) } else { MoveTarget::AfterRequest(t) },
            );
            next_to(r3, t@, req_id, before) || next_to_in_forest(f3, t@, req_id, before)
        }),
{
    lemma_take_request_facts(reqs, fs, req_id);
    if let Some((r2, f2, q)) = spec_take_request(reqs, fs, req_id) {
        if first_request(r2, t@) is Some {
            lemma_insert_next_to(r2, t@, q, before);
        } else {
            lemma_insert_rel_lands_forest(f2, t@, q, before);
        }
    }
}

} // verus!
