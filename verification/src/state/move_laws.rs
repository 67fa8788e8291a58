//! A move that reports failure changes nothing: when the request and the
//! destination exist, a request move always lands.

use vstd::prelude::*;
use crate::state::project::{
    FolderModel, MoveTarget, drops_onto, find_folder_in, find_folder_in_forest, find_request_in,
    find_request_in_forest, first_request, insert_rel_in, insert_rel_in_forest, lemma_first_request_bound,
    push_req_in, push_req_in_forest, spec_move_request, spec_take_request, take_req_in,
    take_req_in_forest, target_exists,
};
use crate::state::request::ApiRequest;

verus! {

/// A request can be appended to a folder exactly when the folder exists.
proof fn lemma_push_iff_found(f: FolderModel, fid: Seq<char>, req: ApiRequest)
    ensures
        push_req_in(f, fid, req) is Some <==> find_folder_in(f, fid) is Some,
    decreases f,
{
    lemma_push_iff_found_forest(f.folders, fid, req);
}

pub(crate) proof fn lemma_push_iff_found_forest(fs: Seq<FolderModel>, fid: Seq<char>, req: ApiRequest)
    ensures
        push_req_in_forest(fs, fid, req) is Some <==> find_folder_in_forest(fs, fid) is Some,
    decreases fs,
{
    if fs.len() > 0 {
        lemma_push_iff_found_forest(fs.drop_last(), fid, req);
        lemma_push_iff_found(fs.last(), fid, req);
    }
}

/// A request can be dropped next to a request exactly when that request
/// exists.
proof fn lemma_insert_iff_found(f: FolderModel, t: Seq<char>, req: ApiRequest, before: bool)
    ensures
        insert_rel_in(f, t, req, before) is Some <==> find_request_in(f, t) is Some,
    decreases f,
{
    lemma_insert_iff_found_forest(f.folders, t, req, before);
}

proof fn lemma_insert_iff_found_forest(fs: Seq<FolderModel>, t: Seq<char>, req: ApiRequest, before: bool)
    ensures
        insert_rel_in_forest(fs, t, req, before) is Some <==> find_request_in_forest(fs, t) is Some,
    decreases fs,
{
    if fs.len() > 0 {
        lemma_insert_iff_found_forest(fs.drop_last(), t, req, before);
        lemma_insert_iff_found(fs.last(), t, req, before);
    }
}

/// Taking a request out keeps every folder.
proof fn lemma_take_keeps_folders(f: FolderModel, id: Seq<char>, fid: Seq<char>)
    ensures
        take_req_in(f, id) matches Some((f2, _)) ==> f2.id == f.id
            && (find_folder_in(f2, fid) is Some <==> find_folder_in(f, fid) is Some),
    decreases f,
{
    lemma_take_keeps_folders_forest(f.folders, id, fid);
}

proof fn lemma_take_keeps_folders_forest(fs: Seq<FolderModel>, id: Seq<char>, fid: Seq<char>)
    ensures
        take_req_in_forest(fs, id) matches Some((fs2, _)) ==> (find_folder_in_forest(fs2, fid) is Some
            <==> find_folder_in_forest(fs, fid) is Some),
    decreases fs,
{
    if fs.len() > 0 {
        lemma_take_keeps_folders_forest(fs.drop_last(), id, fid);
        lemma_take_keeps_folders(fs.last(), id, fid);
        if let Some((fs2, _)) = take_req_in_forest(fs, id) {
            assert(fs2.drop_last() == match take_req_in_forest(fs.drop_last(), id) {
                Some((p, _)) => p,
                None => fs.drop_last(),
            });
        }
    }
}

/// A request with another id stays findable in a list after removal.
proof fn lemma_first_request_remove(s: Seq<ApiRequest>, k: int, t: Seq<char>)
    requires
        0 <= k < s.len(),
        s[k].id@ != t,
    ensures
        first_request(s.remove(k), t) is Some <==> first_request(s, t) is Some,
{
    lemma_first_request_bound(s, t);
    lemma_first_request_bound(s.remove(k), t);
    if first_request(s, t) is Some {
        let j = first_request(s, t)->0;
        let j2 = if j < k { j } else { j - 1 };
        assert(s.remove(k)[j2] == s[j]);
    }
    if first_request(s.remove(k), t) is Some {
        let j = first_request(s.remove(k), t)->0;
        let j2 = if j < k { j } else { j + 1 };
        assert(s.remove(k)[j] == s[j2]);
    }
}

/// Taking out a request with another id keeps a request findable.
proof fn lemma_take_keeps_requests(f: FolderModel, id: Seq<char>, t: Seq<char>)
    requires
        id != t,
    ensures
        take_req_in(f, id) matches Some((f2, _)) ==> (find_request_in(f2, t) is Some <==> find_request_in(f, t) is Some),
    decreases f,
{
    lemma_take_keeps_requests_forest(f.folders, id, t);
    if let Some(k) = first_request(f.requests, id) {
        lemma_first_request_bound(f.requests, id);
        lemma_first_request_remove(f.requests, k, t);
    }
}

proof fn lemma_take_keeps_requests_forest(fs: Seq<FolderModel>, id: Seq<char>, t: Seq<char>)
    requires
        id != t,
    ensures
        take_req_in_forest(fs, id) matches Some((fs2, _)) ==> (find_request_in_forest(fs2, t) is Some
            <==> find_request_in_forest(fs, t) is Some),
    decreases fs,
{
    if fs.len() > 0 {
        lemma_take_keeps_requests_forest(fs.drop_last(), id, t);
        lemma_take_keeps_requests(fs.last(), id, t);
        if let Some((fs2, _)) = take_req_in_forest(fs, id) {
            assert(fs2.drop_last() == match take_req_in_forest(fs.drop_last(), id) {
                Some((p, _)) => p,
                None => fs.drop_last(),
            });
        }
    }
}

/// A request move reports failure only when it changes nothing: when the
/// request and the destination exist (and the request is not dropped next
/// to itself), it lands.
pub proof fn law_failed_move_changes_nothing(reqs: Seq<ApiRequest>, fs: Seq<FolderModel>, req_id: Seq<char>, dest: MoveTarget)
    ensures
        !spec_move_request(reqs, fs, req_id, dest).2 ==> spec_move_request(reqs, fs, req_id, dest) == (reqs, fs, false),
{
    if !drops_onto(dest, req_id) && target_exists(reqs, fs, dest) {
        if let Some((r2, f2, q)) = spec_take_request(reqs, fs, req_id) {
            lemma_first_request_bound(reqs, req_id);
            match dest {
                MoveTarget::ToRoot => {},
                MoveTarget::IntoFolder(fid) => {
                    lemma_push_iff_found_forest(f2, fid@, q);
                    lemma_take_keeps_folders_forest(fs, req_id, fid@);
                },
                MoveTarget::BeforeRequest(t) => {
                    lemma_insert_iff_found_forest(f2, t@, q, true);
                    lemma_take_keeps_requests_forest(fs, req_id, t@);
                    if let Some(k) = first_request(reqs, req_id) {
                        lemma_first_request_remove(reqs, k, t@);
                    }
                },
                MoveTarget::AfterRequest(t) => {
                    lemma_insert_iff_found_forest(f2, t@, q, false);
                    lemma_take_keeps_requests_forest(fs, req_id, t@);
                    if let Some(k) = first_request(reqs, req_id) {
                        lemma_first_request_remove(reqs, k, t@);
                    }
                },
            }
        }
    }
}

} // verus!
