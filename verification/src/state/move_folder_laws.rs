//! Moving a folder keeps every folder of the tree, and a move that succeeds
//! puts the folder last among the children of its new parent (or last at the
//! top level).

use vstd::prelude::*;
use crate::state::project::{
    FolderModel, MoveTarget, find_folder_in, find_folder_in_forest, first_folder, forest_ids,
    lemma_first_folder_bound, push_folder_in, push_folder_in_forest, spec_move_folder, subtree_ids,
    take_folder_in_children, take_folder_in_forest,
};

verus! {

proof fn lemma_forest_ids_push(fs: Seq<FolderModel>, f: FolderModel)
    ensures
        forest_ids(fs.push(f)) == forest_ids(fs) + subtree_ids(f),
{
    assert(fs.push(f).drop_last() =~= fs);
}

/// Removing one subtree from a list removes exactly its folder ids.
proof fn lemma_forest_ids_remove(fs: Seq<FolderModel>, k: int)
    requires
        0 <= k < fs.len(),
    ensures
        forest_ids(fs).to_multiset() == forest_ids(fs.remove(k)).to_multiset().add(subtree_ids(fs[k]).to_multiset()),
    decreases fs.len(),
{
    broadcast use vstd::seq_lib::group_to_multiset_ensures, vstd::multiset::group_multiset_axioms;
    let dl = fs.drop_last();
    let last = fs.last();
    vstd::seq_lib::lemma_multiset_commutative(forest_ids(dl), subtree_ids(last));
    if k == fs.len() - 1 {
        assert(fs.remove(k) =~= dl);
    } else {
        lemma_forest_ids_remove(dl, k);
        assert(fs.remove(k) =~= dl.remove(k).push(last));
        lemma_forest_ids_push(dl.remove(k), last);
        vstd::seq_lib::lemma_multiset_commutative(forest_ids(dl.remove(k)), subtree_ids(last));
        assert(forest_ids(dl.remove(k)).to_multiset().add(subtree_ids(dl[k]).to_multiset()).add(
            subtree_ids(last).to_multiset(),
        ) =~= forest_ids(dl.remove(k)).to_multiset().add(subtree_ids(last).to_multiset()).add(
            subtree_ids(dl[k]).to_multiset(),
        ));
    }
}

/// Taking a folder out of a list removes exactly the ids of its subtree, and
/// the folder taken is the one asked for.
proof fn lemma_take_folder_ids(fs: Seq<FolderModel>, id: Seq<char>)
    ensures
        take_folder_in_forest(fs, id) matches Some((fs2, x)) ==> forest_ids(fs).to_multiset()
            == forest_ids(fs2).to_multiset().add(subtree_ids(x).to_multiset()) && x.id == id,
    decreases fs, 1int,
{
    lemma_first_folder_bound(fs, id);
    match first_folder(fs, id) {
        Some(k) => {
            lemma_forest_ids_remove(fs, k);
        },
        None => {
            lemma_take_folder_children_ids(fs, id);
        },
    }
}

/// [`lemma_take_folder_ids`] for the descent step.
proof fn lemma_take_folder_children_ids(fs: Seq<FolderModel>, id: Seq<char>)
    ensures
        take_folder_in_children(fs, id) matches Some((fs2, x)) ==> forest_ids(fs).to_multiset()
            == forest_ids(fs2).to_multiset().add(subtree_ids(x).to_multiset()) && x.id == id,
    decreases fs, 0int,
{
    broadcast use vstd::seq_lib::group_to_multiset_ensures, vstd::multiset::group_multiset_axioms;
    if fs.len() > 0 {
        let dl = fs.drop_last();
        let last = fs.last();
        lemma_take_folder_children_ids(dl, id);
        vstd::seq_lib::lemma_multiset_commutative(forest_ids(dl), subtree_ids(last));
        match take_folder_in_children(dl, id) {
            Some((fs2, x)) => {
                lemma_forest_ids_push(fs2, last);
                vstd::seq_lib::lemma_multiset_commutative(forest_ids(fs2), subtree_ids(last));
                assert(forest_ids(fs2).to_multiset().add(subtree_ids(x).to_multiset()).add(
                    subtree_ids(last).to_multiset(),
                ) =~= forest_ids(fs2).to_multiset().add(subtree_ids(last).to_multiset()).add(
                    subtree_ids(x).to_multiset(),
                ));
            },
            None => {
                lemma_take_folder_ids(last.folders, id);
                match take_folder_in_forest(last.folders, id) {
                    Some((c2, x)) => {
                        let f2 = FolderModel { folders: c2, ..last };
                        let top = seq![last.id];
                        lemma_forest_ids_push(dl, f2);
                        vstd::seq_lib::lemma_multiset_commutative(forest_ids(dl), subtree_ids(f2));
                        vstd::seq_lib::lemma_multiset_commutative(top, forest_ids(last.folders));
                        vstd::seq_lib::lemma_multiset_commutative(top, forest_ids(c2));
                        assert(forest_ids(dl).to_multiset().add(
                            top.to_multiset().add(forest_ids(c2).to_multiset().add(subtree_ids(x).to_multiset())),
                        ) =~= forest_ids(dl).to_multiset().add(
                            top.to_multiset().add(forest_ids(c2).to_multiset()),
                        ).add(subtree_ids(x).to_multiset()));
                    },
                    None => {},
                }
            },
        }
    }
}

/// Pushing a folder into a subtree adds exactly the ids of the pushed
/// folder's subtree.
proof fn lemma_push_folder_ids(f: FolderModel, fid: Seq<char>, x: FolderModel)
    ensures
        push_folder_in(f, fid, x) matches Some(f2) ==> subtree_ids(f2).to_multiset()
            == subtree_ids(f).to_multiset().add(subtree_ids(x).to_multiset()),
    decreases f,
{
    broadcast use vstd::seq_lib::group_to_multiset_ensures, vstd::multiset::group_multiset_axioms;
    let top = seq![f.id];
    if f.id == fid {
        lemma_forest_ids_push(f.folders, x);
        vstd::seq_lib::lemma_multiset_commutative(top, forest_ids(f.folders.push(x)));
        vstd::seq_lib::lemma_multiset_commutative(top, forest_ids(f.folders));
        vstd::seq_lib::lemma_multiset_commutative(forest_ids(f.folders), subtree_ids(x));
        assert(top.to_multiset().add(forest_ids(f.folders).to_multiset().add(subtree_ids(x).to_multiset()))
            =~= top.to_multiset().add(forest_ids(f.folders).to_multiset()).add(subtree_ids(x).to_multiset()));
    } else {
        lemma_push_folder_ids_forest(f.folders, fid, x);
        match push_folder_in_forest(f.folders, fid, x) {
            Some(fs2) => {
                vstd::seq_lib::lemma_multiset_commutative(top, forest_ids(fs2));
                vstd::seq_lib::lemma_multiset_commutative(top, forest_ids(f.folders));
                assert(top.to_multiset().add(forest_ids(f.folders).to_multiset().add(subtree_ids(x).to_multiset()))
                    =~= top.to_multiset().add(forest_ids(f.folders).to_multiset()).add(subtree_ids(x).to_multiset()));
            },
            None => {},
        }
    }
}

/// [`lemma_push_folder_ids`] over a list of subtrees.
proof fn lemma_push_folder_ids_forest(fs: Seq<FolderModel>, fid: Seq<char>, x: FolderModel)
    ensures
        push_folder_in_forest(fs, fid, x) matches Some(fs2) ==> forest_ids(fs2).to_multiset()
            == forest_ids(fs).to_multiset().add(subtree_ids(x).to_multiset()),
    decreases fs,
{
    broadcast use vstd::seq_lib::group_to_multiset_ensures, vstd::multiset::group_multiset_axioms;
    if fs.len() > 0 {
        let dl = fs.drop_last();
        let last = fs.last();
        lemma_push_folder_ids_forest(dl, fid, x);
        vstd::seq_lib::lemma_multiset_commutative(forest_ids(dl), subtree_ids(last));
        match push_folder_in_forest(dl, fid, x) {
            Some(fs2) => {
                lemma_forest_ids_push(fs2, last);
                vstd::seq_lib::lemma_multiset_commutative(forest_ids(fs2), subtree_ids(last));
                assert(forest_ids(dl).to_multiset().add(subtree_ids(x).to_multiset()).add(subtree_ids(last).to_multiset())
                    =~= forest_ids(dl).to_multiset().add(subtree_ids(last).to_multiset()).add(subtree_ids(x).to_multiset()));
            },
            None => {
                lemma_push_folder_ids(last, fid, x);
                match push_folder_in(last, fid, x) {
                    Some(f2) => {
                        lemma_forest_ids_push(dl, f2);
                        vstd::seq_lib::lemma_multiset_commutative(forest_ids(dl), subtree_ids(f2));
                        assert(forest_ids(dl).to_multiset().add(subtree_ids(last).to_multiset().add(subtree_ids(x).to_multiset()))
                            =~= forest_ids(dl).to_multiset().add(subtree_ids(last).to_multiset()).add(subtree_ids(x).to_multiset()));
                    },
                    None => {},
                }
            },
        }
    }
}

/// A folder can be pushed into a subtree exactly when the target exists;
/// when it is, the target, as found afterwards, has the pushed folder last
/// among its children.
proof fn lemma_push_folder_lands(f: FolderModel, fid: Seq<char>, x: FolderModel)
    ensures
        push_folder_in(f, fid, x) is Some <==> find_folder_in(f, fid) is Some,
        push_folder_in(f, fid, x) matches Some(f2) ==> (find_folder_in(f2, fid) matches Some((_, y))
            && y.folders.len() > 0 && y.folders.last() == x),
    decreases f,
{
    lemma_push_folder_lands_forest(f.folders, fid, x);
}

proof fn lemma_push_folder_lands_forest(fs: Seq<FolderModel>, fid: Seq<char>, x: FolderModel)
    ensures
        push_folder_in_forest(fs, fid, x) is Some <==> find_folder_in_forest(fs, fid) is Some,
        push_folder_in_forest(fs, fid, x) matches Some(fs2) ==> (find_folder_in_forest(fs2, fid) matches Some((_, y))
            && y.folders.len() > 0 && y.folders.last() == x),
    decreases fs,
{
    if fs.len() > 0 {
        lemma_push_folder_lands_forest(fs.drop_last(), fid, x);
        lemma_push_folder_lands(fs.last(), fid, x);
        match push_folder_in_forest(fs.drop_last(), fid, x) {
            Some(p) => {
                assert(p.push(fs.last()).drop_last() =~= p);
            },
            None => if let Some(f2) = push_folder_in(fs.last(), fid, x) {
                assert(fs.drop_last().push(f2).drop_last() =~= fs.drop_last());
            },
        }
    }
}

/// Moving a folder, wherever to and whether or not it succeeds, keeps every
/// folder of the tree: the same ids, each as often as before.
pub proof fn law_move_folder_keeps_folders(fs: Seq<FolderModel>, folder_id: Seq<char>, dest: MoveTarget)
    ensures
        forest_ids(spec_move_folder(fs, folder_id, dest).0).to_multiset() == forest_ids(fs).to_multiset(),
{
    broadcast use vstd::seq_lib::group_to_multiset_ensures, vstd::multiset::group_multiset_axioms;
    lemma_take_folder_ids(fs, folder_id);
    if let Some((fs2, x)) = take_folder_in_forest(fs, folder_id) {
        lemma_forest_ids_push(fs2, x);
        vstd::seq_lib::lemma_multiset_commutative(forest_ids(fs2), subtree_ids(x));
        if let MoveTarget::IntoFolder(t) = dest {
            lemma_push_folder_ids_forest(fs2, t@, x);
        }
    }
}

/// A folder move that succeeds puts the folder last: at the top level for a
/// move to the root, or among the children of the target folder (as found
/// afterwards) for a move into a folder.
pub proof fn law_move_folder_lands_last(fs: Seq<FolderModel>, folder_id: Seq<char>, dest: MoveTarget)
    requires
        spec_move_folder(fs, folder_id, dest).1,
    ensures
        dest is ToRoot ==> spec_move_folder(fs, folder_id, dest).0.len() > 0 && spec_move_folder(
            fs,
            folder_id,
            dest,
        ).0.last().id == folder_id,
        dest matches MoveTarget::IntoFolder(t) ==> (find_folder_in_forest(spec_move_folder(fs, folder_id, dest).0, t@)
            matches Some((_, y)) && y.folders.len() > 0 && y.folders.last().id == folder_id),
{
    lemma_take_folder_ids(fs, folder_id);
    if let Some((fs2, x)) = take_folder_in_forest(fs, folder_id) {
        if let MoveTarget::IntoFolder(t) = dest {
            lemma_push_folder_lands_forest(fs2, t@, x);
        }
    }
}

} // verus!
