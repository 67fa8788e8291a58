//! The folder chains the project reports: the one [`Project::find_request`]
//! gives leads, folder by folder, back to the request's owner, so that
//! [`Project::folder_variables_chain`] resolves every id of it as long as no
//! two sibling folders share an id; the one [`Project::find_folder`] gives
//! holds the folder's ancestors only.

use vstd::prelude::*;
use crate::state::project::{
    FolderModel, Project, chain_variables, find_folder_in, find_folder_in_forest, find_request_in,
    find_request_in_forest, first_folder, first_request, lemma_first_folder_bound,
};

verus! {

/// No two folders under the same parent (or both at the top) share an id,
/// anywhere in the subtree.
pub open spec fn distinct_siblings(f: FolderModel) -> bool
    decreases f,
{
    distinct_siblings_forest(f.folders)
}

/// [`distinct_siblings`] for a list of folders and all their subtrees.
pub open spec fn distinct_siblings_forest(fs: Seq<FolderModel>) -> bool
    decreases fs,
{
    if fs.len() == 0 {
        true
    } else {
        &&& distinct_siblings_forest(fs.drop_last())
        &&& distinct_siblings(fs.last())
        &&& first_folder(fs.drop_last(), fs.last().id) is None
    }
}

proof fn lemma_first_folder_prefix(fs: Seq<FolderModel>, id: Seq<char>)
    requires
        fs.len() > 0,
        first_folder(fs.drop_last(), id) is Some,
    ensures
        first_folder(fs, id) == first_folder(fs.drop_last(), id),
        0 <= first_folder(fs, id).unwrap() < fs.len() - 1,
{
    lemma_first_folder_bound(fs.drop_last(), id);
}

/// The chain found in a subtree starts at its top folder, and the rest of it
/// resolves in full among that folder's children.
proof fn lemma_chain_in(f: FolderModel, id: Seq<char>)
    requires
        distinct_siblings(f),
    ensures
        find_request_in(f, id) matches Some((c, _)) ==> c.len() > 0 && c[0] == f.id && chain_variables(
            f.folders,
            c.drop_first(),
        ).len() == c.len() - 1,
    decreases f,
{
    lemma_chain_in_forest(f.folders, id);
    if let Some((c, _)) = find_request_in(f, id) {
        if first_request(f.requests, id) is Some {
            assert(c.drop_first() =~= Seq::<Seq<char>>::empty());
        } else {
            let c2 = find_request_in_forest(f.folders, id).unwrap().0;
            assert(c.drop_first() =~= c2);
        }
    }
}

/// The chain found in a list of folders resolves in full.
proof fn lemma_chain_in_forest(fs: Seq<FolderModel>, id: Seq<char>)
    requires
        distinct_siblings_forest(fs),
    ensures
        find_request_in_forest(fs, id) matches Some((c, _)) ==> c.len() > 0 && chain_variables(fs, c).len()
            == c.len(),
    decreases fs,
{
    if fs.len() > 0 {
        lemma_chain_in_forest(fs.drop_last(), id);
        lemma_chain_in(fs.last(), id);
        if let Some((c, _)) = find_request_in_forest(fs, id) {
            if find_request_in_forest(fs.drop_last(), id) is Some {
                assert(first_folder(fs.drop_last(), c[0]) is Some);
                lemma_first_folder_prefix(fs, c[0]);
                let k = first_folder(fs, c[0]).unwrap();
                assert(fs[k] == fs.drop_last()[k]);
                assert(chain_variables(fs, c) == chain_variables(fs.drop_last(), c));
            } else {
                let last = fs.last();
                assert(first_folder(fs, last.id) == Some(fs.len() - 1));
                assert(chain_variables(fs, c) == seq![last.variables] + chain_variables(last.folders, c.drop_first()));
            }
        }
    }
}

/// The folder chain [`Project::find_request`] reports for a request resolves
/// in full in [`Project::folder_variables_chain`]: one set of variables per
/// folder of the chain, when no two sibling folders share an id.
pub proof fn law_request_chain_resolves(p: Project, id: Seq<char>)
    requires
        distinct_siblings_forest(p.folder_models()),
        p.spec_find_request(id) is Some,
    ensures
        chain_variables(p.folder_models(), p.spec_find_request(id).unwrap().0).len()
            == p.spec_find_request(id).unwrap().0.len(),
{
    lemma_chain_in_forest(p.folder_models(), id);
    if first_request(p.requests@, id) is Some {
        assert(chain_variables(p.folder_models(), Seq::<Seq<char>>::empty()).len() == 0);
    }
}

proof fn lemma_folder_chain_omits(f: FolderModel, id: Seq<char>)
    ensures
        find_folder_in(f, id) matches Some((c, x)) ==> x.id == id && !c.contains(id),
    decreases f,
{
    lemma_folder_chain_omits_forest(f.folders, id);
    if f.id != id {
        if let Some((c2, x)) = find_folder_in_forest(f.folders, id) {
            let c = seq![f.id] + c2;
            assert forall|k: int| 0 <= k < c.len() implies c[k] != id by {
                if k > 0 {
                    assert(c[k] == c2[k - 1]);
                }
            }
        }
    }
}

proof fn lemma_folder_chain_omits_forest(fs: Seq<FolderModel>, id: Seq<char>)
    ensures
        find_folder_in_forest(fs, id) matches Some((c, x)) ==> x.id == id && !c.contains(id),
    decreases fs,
{
    if fs.len() > 0 {
        lemma_folder_chain_omits_forest(fs.drop_last(), id);
        lemma_folder_chain_omits(fs.last(), id);
    }
}

/// The chain [`Project::find_folder`] reports for a folder holds only its
/// ancestors: the folder found has the id asked for, and that id is not in
/// the chain (every folder on the way down had another id).
pub proof fn law_folder_chain_omits_own_id(ms: Seq<FolderModel>, id: Seq<char>)
    ensures
        find_folder_in_forest(ms, id) matches Some((c, x)) ==> x.id == id && !c.contains(id),
{
    lemma_folder_chain_omits_forest(ms, id);
}

} // verus!
