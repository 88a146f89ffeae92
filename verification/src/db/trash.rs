//! Trash, restore, permanent deletion, and favorites.

use vstd::prelude::*;

use crate::db::folders::{sorted_unique_ids, strictly_increasing};
use crate::db::states::LifecycleState;
use crate::domain::FolderError;

verus! {

/// Stable identifier for the single root folder created by migrations.
pub const ROOT_NODE_ID: u128 = 1;

/// Stable identifier for the single v1 watched-folder source.
pub const DEFAULT_IMPORT_SOURCE_ID: u128 = 3;

/// Expected failures for trash and restore mutations.
#[derive(Clone, Copy, Debug, PartialEq, Eq, Structural)]
pub enum TrashMutationError {
    Rule(FolderError),
    CannotTrashRoot,
    NotTrashed,
}

/// Normalizes a trash request: the distinct identifiers in ascending order.
/// An empty request trashes nothing; a request that names the root folder is
/// refused outright.
pub fn trash_selection(node_ids: &[u128]) -> (r: Result<Vec<u128>, TrashMutationError>)
    ensures
        node_ids@.contains(ROOT_NODE_ID) ==> r == Err::<Vec<u128>, TrashMutationError>(
            TrashMutationError::CannotTrashRoot,
        ),
        !node_ids@.contains(ROOT_NODE_ID) ==> (r matches Ok(ids) && strictly_increasing(ids@)
            && forall|x: u128| ids@.contains(x) <==> node_ids@.contains(x)),
{
    let ids = sorted_unique_ids(node_ids);
    if ids.is_empty() {
        proof {
            if node_ids@.contains(ROOT_NODE_ID) {
                assert(ids@.contains(ROOT_NODE_ID));
            }
        }
        return Ok(ids);
    }
    let mut i: usize = 0;
    while i < ids.len()
        invariant
            i <= ids@.len(),
            forall|x: u128| ids@.contains(x) <==> node_ids@.contains(x),
            forall|k: int| 0 <= k < i ==> ids@[k] != ROOT_NODE_ID,
        decreases ids@.len() - i,
    {
        if ids[i] == ROOT_NODE_ID {
            assert(ids@.contains(ROOT_NODE_ID));
            return Err(TrashMutationError::CannotTrashRoot);
        }
        i = i + 1;
    }
    proof {
        if node_ids@.contains(ROOT_NODE_ID) {
            assert(ids@.contains(ROOT_NODE_ID));
            let k = choose|k: int| 0 <= k < ids@.len() && #[trigger] ids@[k] == ROOT_NODE_ID;
            assert(ids@[k] != ROOT_NODE_ID);
        }
    }
    Ok(ids)
}

/// A selected node is nested when one of its ancestors is selected too.
/// `ancestry` pairs each selected node with each of its ancestors.
pub open spec fn is_nested(node: u128, selected: Seq<u128>, ancestry: Seq<(u128, u128)>) -> bool {
    exists|k: int|
        0 <= k < ancestry.len() && (#[trigger] ancestry[k]).0 == node && selected.contains(
            ancestry[k].1,
        )
}

/// The selected roots that are not nested, in the order given.
pub open spec fn top_level(
    roots: Seq<u128>,
    selected: Seq<u128>,
    ancestry: Seq<(u128, u128)>,
) -> Seq<u128> {
    roots.filter(|r: u128| !is_nested(r, selected, ancestry))
}

/// The outermost nodes of a trash selection: a node whose ancestor is also
/// selected is trashed with that ancestor and gets no trash entry of its own.
pub fn top_level_ids(roots: &[u128], selected: &[u128], ancestry: &[(u128, u128)]) -> (r: Vec<
    u128,
>)
    ensures
        r@ == top_level(roots@, selected@, ancestry@),
{
    let mut out: Vec<u128> = Vec::new();
    let mut i: usize = 0;
    while i < roots.len()
        invariant
            i <= roots@.len(),
            out@ == top_level(roots@.take(i as int), selected@, ancestry@),
        decreases roots@.len() - i,
    {
        let root = roots[i];
        let mut nested = false;
        let mut k: usize = 0;
        while k < ancestry.len() && !nested
            invariant
                k <= ancestry@.len(),
                nested == exists|m: int|
                    0 <= m < k && (#[trigger] ancestry@[m]).0 == root && selected@.contains(
                        ancestry@[m].1,
                    ),
            decreases ancestry@.len() - k,
        {
            let (node, ancestor) = ancestry[k];
            if node == root {
                let mut found = false;
                let mut j: usize = 0;
                while j < selected.len() && !found
                    invariant
                        j <= selected@.len(),
                        found == exists|m: int| 0 <= m < j && selected@[m] == ancestor,
                    decreases selected@.len() - j,
                {
                    if selected[j] == ancestor {
                        found = true;
                    }
                    j = j + 1;
                }
                proof {
                    if found {
                        let m = choose|m: int| 0 <= m < j && selected@[m] == ancestor;
                        assert(selected@.contains(ancestor));
                    } else {
                        assert(!selected@.contains(ancestor));
                    }
                    assert(ancestry@[k as int] == (node, ancestor));
                }
                if found {
                    nested = true;
                }
            }
            k = k + 1;
        }
        proof {
            assert(nested == is_nested(root, selected@, ancestry@));
            assert(roots@.take(i + 1).drop_last() =~= roots@.take(i as int));
            assert(roots@.take(i + 1).last() == root);
            reveal(Seq::filter);
        }
        if !nested {
            out.push(root);
        }
        i = i + 1;
    }
    proof {
        assert(roots@.take(i as int) =~= roots@);
    }
    out
}

/// Where a restored node goes: its original parent when that is still an
/// active folder, otherwise the stable root. `preferred` is the recorded
/// original parent (else the node's current parent), and
/// `preferred_is_active_folder` whether it is still an active folder.
pub fn restore_parent(preferred: Option<u128>, preferred_is_active_folder: bool) -> (r: u128)
    ensures
        r == match preferred {
            Some(parent) => if preferred_is_active_folder {
                parent
            } else {
                ROOT_NODE_ID
            },
            None => ROOT_NODE_ID,
        },
{
    match preferred {
        Some(parent) => if preferred_is_active_folder {
            parent
        } else {
            ROOT_NODE_ID
        },
        None => ROOT_NODE_ID,
    }
}

/// Decides a permanent-deletion request from the node's identity and state
/// (`None` when it is already gone): `Ok(true)` enqueues the deletion,
/// `Ok(false)` means there is nothing left to delete.
pub fn permanent_deletion_gate(node: Option<(u128, LifecycleState)>) -> (r: Result<
    bool,
    TrashMutationError,
>)
    ensures
        r == match node {
            None => Ok(false),
            Some((id, state)) => if state != LifecycleState::Trashed {
                Err(TrashMutationError::NotTrashed)
            } else if id == ROOT_NODE_ID {
                Err(TrashMutationError::CannotTrashRoot)
            } else {
                Ok::<bool, TrashMutationError>(true)
            },
        },
{
    match node {
        None => Ok(false),
        Some((id, state)) => {
            if state != LifecycleState::Trashed {
                Err(TrashMutationError::NotTrashed)
            } else if id == ROOT_NODE_ID {
                Err(TrashMutationError::CannotTrashRoot)
            } else {
                Ok(true)
            }
        },
    }
}

/// Whether a node may be favorited at all: the root folder may not.
pub fn favorite_target_allowed(node_id: u128) -> (r: Result<(), FolderError>)
    ensures
        r == if node_id == ROOT_NODE_ID {
            Err(FolderError::NotFound)
        } else {
            Ok::<(), FolderError>(())
        },
{
    if node_id == ROOT_NODE_ID {
        Err(FolderError::NotFound)
    } else {
        Ok(())
    }
}

/// The outcome of adding a favorite: success when a row was inserted, or when
/// none was because the active node is already a favorite; a node that is
/// missing or not active is not found.
pub fn favorite_outcome(inserted: bool, node_is_active: bool) -> (r: Result<(), FolderError>)
    ensures
        r == if inserted || node_is_active {
            Ok::<(), FolderError>(())
        } else {
            Err(FolderError::NotFound)
        },
{
    if inserted || node_is_active {
        Ok(())
    } else {
        Err(FolderError::NotFound)
    }
}

/// A selected root is kept exactly when no ancestry pair, wherever it stands
/// in the list, names it together with a selected ancestor: the outermost
/// nodes are the roots none of whose ancestors (parent, grandparent, ...) is
/// selected, and every kept node is one of the roots.
pub proof fn lemma_top_level_keeps_exactly_unselected_ancestries(
    roots: Seq<u128>,
    selected: Seq<u128>,
    ancestry: Seq<(u128, u128)>,
    node: u128,
)
    ensures
        top_level(roots, selected, ancestry).contains(node) <==> (roots.contains(node) && !(
        exists|k: int|
            0 <= k < ancestry.len() && ancestry[k].0 == node && selected.contains(
                #[trigger] ancestry[k].1,
            ))),
{
    let pred = |r: u128| !is_nested(r, selected, ancestry);
    let kept = roots.filter(pred);
    roots.filter_lemma(pred);
    if kept.contains(node) {
        let i = choose|i: int| 0 <= i < kept.len() && kept[i] == node;
        assert(pred(kept[i]));
        roots.lemma_filter_contains_rev(pred, node);
        if exists|k: int|
            0 <= k < ancestry.len() && ancestry[k].0 == node && selected.contains(
                #[trigger] ancestry[k].1,
            ) {
            let k = choose|k: int|
                0 <= k < ancestry.len() && ancestry[k].0 == node && selected.contains(
                    #[trigger] ancestry[k].1,
                );
            assert(ancestry[k].0 == node);
            assert(is_nested(node, selected, ancestry));
        }
    }
    if roots.contains(node) && !(exists|k: int|
        0 <= k < ancestry.len() && ancestry[k].0 == node && selected.contains(
            #[trigger] ancestry[k].1,
        )) {
        let i = choose|i: int| 0 <= i < roots.len() && roots[i] == node;
        if is_nested(node, selected, ancestry) {
            let k = choose|k: int|
                0 <= k < ancestry.len() && (#[trigger] ancestry[k]).0 == node && selected.contains(
                    ancestry[k].1,
                );
            assert(selected.contains(ancestry[k].1));
        }
        roots.lemma_filter_contains(pred, i);
    }
}

/// The outermost nodes do not depend on how the ancestry pairs are listed:
/// two lists holding the same pairs give the same result.
pub proof fn lemma_top_level_ignores_ancestry_order(
    roots: Seq<u128>,
    selected: Seq<u128>,
    first: Seq<(u128, u128)>,
    second: Seq<(u128, u128)>,
)
    requires
        forall|pair: (u128, u128)| first.contains(pair) <==> second.contains(pair),
    ensures
        top_level(roots, selected, first) == top_level(roots, selected, second),
{
    let p1 = |r: u128| !is_nested(r, selected, first);
    let p2 = |r: u128| !is_nested(r, selected, second);
    assert forall|r: u128| is_nested(r, selected, first) <==> is_nested(r, selected, second) by {
        if is_nested(r, selected, first) {
            let k = choose|k: int|
                0 <= k < first.len() && (#[trigger] first[k]).0 == r && selected.contains(first[k].1);
            assert(first.contains(first[k]));
            assert(second.contains(first[k]));
            let m = choose|m: int| 0 <= m < second.len() && second[m] == first[k];
            assert(second[m].0 == r);
        }
        if is_nested(r, selected, second) {
            let k = choose|k: int|
                0 <= k < second.len() && (#[trigger] second[k]).0 == r && selected.contains(second[k].1);
            assert(second.contains(second[k]));
            assert(first.contains(second[k]));
            let m = choose|m: int| 0 <= m < first.len() && first[m] == second[k];
            assert(first[m].0 == r);
        }
    }
    assert(p1 =~= p2);
}

} // verus!
