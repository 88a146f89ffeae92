//! Folder mutations: batch moves and the children listing's query shape.

use vstd::prelude::*;

use crate::db::records::NodeRecord;
use crate::domain::{FolderError, FolderRules, NodeId};
use crate::text::str_eq;

verus! {

/// Why a folder could not be moved to the requested destination.
#[derive(Clone, Copy, Debug, PartialEq, Eq, Structural)]
pub enum FolderMoveConflictReason {
    NameConflict,
    CycleDetected,
}

/// A folder that prevented an atomic batch move.
#[derive(Clone, Debug, PartialEq, Eq)]
pub struct FolderMoveConflict {
    pub id: u128,
    pub name: String,
    pub reason: FolderMoveConflictReason,
}

/// Expected failures from a transactional folder mutation.
#[derive(Clone, Debug)]
pub enum FolderMutationError {
    Rule(FolderError),
    MoveConflict(Vec<FolderMoveConflict>),
}

/// The identifiers of a sequence, strictly ascending.
pub open spec fn strictly_increasing(s: Seq<u128>) -> bool {
    forall|i: int, j: int| 0 <= i < j < s.len() ==> s[i] < s[j]
}

/// The distinct identifiers of a selection in ascending order, the form in
/// which a batch is locked so that concurrent batches lock in one order.
pub fn sorted_unique_ids(ids: &[u128]) -> (r: Vec<u128>)
    ensures
        strictly_increasing(r@),
        forall|x: u128| r@.contains(x) <==> ids@.contains(x),
{
    let mut out: Vec<u128> = Vec::new();
    let mut i: usize = 0;
    while i < ids.len()
        invariant
            i <= ids@.len(),
            strictly_increasing(out@),
            forall|x: u128| out@.contains(x) <==> ids@.take(i as int).contains(x),
        decreases ids@.len() - i,
    {
        let x = ids[i];
        let mut pos: usize = 0;
        while pos < out.len() && out[pos] < x
            invariant
                pos <= out@.len(),
                forall|k: int| 0 <= k < pos ==> out@[k] < x,
            decreases out@.len() - pos,
        {
            pos = pos + 1;
        }
        let ghost before = out@;
        proof {
            assert(ids@.take(i + 1) =~= ids@.take(i as int).push(x));
        }
        if pos < out.len() && out[pos] == x {
            proof {
                assert forall|y: u128| out@.contains(y) <==> ids@.take(i + 1).contains(y) by {
                    if y == x {
                        assert(out@[pos as int] == x);
                    }
                    if ids@.take(i + 1).contains(y) && y != x {
                        let k = choose|k: int| 0 <= k < i + 1 && #[trigger] ids@.take(i + 1)[k] == y;
                        assert(ids@.take(i as int)[k] == y);
                    }
                }
            }
        } else {
            out.insert(pos, x);
            proof {
                before.insert_ensures(pos as int, x);
                assert forall|a: int, b: int| 0 <= a < b < out@.len() implies out@[a] < out@[b] by {
                    if b < pos {
                    } else if b == pos {
                    } else if a < pos {
                        assert(out@[b] == before[b - 1]);
                        assert(before[pos as int] >= x);
                        if b - 1 > pos {
                            assert(before[pos as int] < before[b - 1]);
                        }
                    } else if a == pos {
                        assert(out@[b] == before[b - 1]);
                        assert(before[pos as int] > x);
                        if b - 1 > pos {
                            assert(before[pos as int] < before[b - 1]);
                        }
                    } else {
                        assert(out@[a] == before[a - 1] && out@[b] == before[b - 1]);
                    }
                }
                assert forall|y: u128| out@.contains(y) <==> ids@.take(i + 1).contains(y) by {
                    if out@.contains(y) {
                        let k = choose|k: int| 0 <= k < out@.len() && #[trigger] out@[k] == y;
                        if k < pos {
                            assert(before[k] == y);
                            assert(before.contains(y));
                            assert(ids@.take(i as int).contains(y));
                            let m = choose|m: int| 0 <= m < i && #[trigger] ids@.take(i as int)[m] == y;
                            assert(ids@.take(i + 1)[m] == y);
                        } else if k > pos {
                            assert(before[k - 1] == y);
                            assert(before.contains(y));
                            assert(ids@.take(i as int).contains(y));
                            let m = choose|m: int| 0 <= m < i && #[trigger] ids@.take(i as int)[m] == y;
                            assert(ids@.take(i + 1)[m] == y);
                        } else {
                            assert(ids@.take(i + 1)[i as int] == x);
                        }
                    }
                    if ids@.take(i + 1).contains(y) {
                        if y == x {
                            assert(out@[pos as int] == x);
                        } else {
                            let k = choose|k: int| 0 <= k < i + 1 && #[trigger] ids@.take(i + 1)[k] == y;
                            assert(ids@.take(i as int)[k] == y);
                            assert(before.contains(y));
                            let m = choose|m: int| 0 <= m < before.len() && #[trigger] before[m] == y;
                            if m < pos {
                                assert(out@[m] == y);
                            } else {
                                assert(out@[m + 1] == y);
                            }
                        }
                    }
                }
            }
        }
        i = i + 1;
    }
    proof {
        assert(ids@.take(i as int) =~= ids@);
    }
    out
}

/// A conflict as the triple it is compared by.
pub open spec fn conflict_view(c: FolderMoveConflict) -> (u128, Seq<char>, FolderMoveConflictReason) {
    (c.id, c.name@, c.reason)
}

/// Conflicts as the triples they are compared by.
pub open spec fn conflict_views(s: Seq<FolderMoveConflict>) -> Seq<(u128, Seq<char>, FolderMoveConflictReason)> {
    s.map_values(|c: FolderMoveConflict| conflict_view(c))
}

/// Moving `folder` to `destination` would place it beneath itself.
pub open spec fn move_creates_cycle(
    folder: NodeRecord,
    destination: u128,
    descendants: Seq<NodeId>,
) -> bool {
    folder.id == destination || exists|k: int|
        0 <= k < descendants.len() && (#[trigger] descendants[k])@ == destination
}

/// Another folder of the batch carries the same name.
pub open spec fn has_namesake(folders: Seq<NodeRecord>, i: int) -> bool {
    exists|j: int| 0 <= j < folders.len() && j != i && (#[trigger] folders[j]).name@ == folders[i].name@
}

/// The cycle conflicts among the first `n` folders, in batch order.
pub open spec fn cycle_conflicts(
    folders: Seq<NodeRecord>,
    destination: u128,
    descendants: Seq<Vec<NodeId>>,
    n: int,
) -> Seq<(u128, Seq<char>, FolderMoveConflictReason)>
    decreases n,
{
    if n <= 0 {
        seq![]
    } else {
        let prev = cycle_conflicts(folders, destination, descendants, n - 1);
        if move_creates_cycle(folders[n - 1], destination, descendants[n - 1]@) {
            prev.push((folders[n - 1].id, folders[n - 1].name@, FolderMoveConflictReason::CycleDetected))
        } else {
            prev
        }
    }
}

/// Every cycle conflict, followed by the name conflicts of the first `n`
/// folders: a folder conflicts by name when another folder of the batch shares
/// its name or an active node outside the batch already holds it at the
/// destination, and it is not already listed.
pub open spec fn move_conflicts_upto(
    folders: Seq<NodeRecord>,
    destination: u128,
    descendants: Seq<Vec<NodeId>>,
    taken: Seq<bool>,
    n: int,
) -> Seq<(u128, Seq<char>, FolderMoveConflictReason)>
    decreases n,
{
    if n <= 0 {
        cycle_conflicts(folders, destination, descendants, folders.len() as int)
    } else {
        let prev = move_conflicts_upto(folders, destination, descendants, taken, n - 1);
        let i = n - 1;
        if (has_namesake(folders, i) || taken[i]) && !(exists|k: int|
            0 <= k < prev.len() && (#[trigger] prev[k]).0 == folders[i].id) {
            prev.push((folders[i].id, folders[i].name@, FolderMoveConflictReason::NameConflict))
        } else {
            prev
        }
    }
}

/// Whether a name is used by another folder of the batch.
fn namesake_in_batch(folders: &[NodeRecord], i: usize) -> (r: bool)
    requires
        i < folders@.len(),
    ensures
        r == has_namesake(folders@, i as int),
{
    let mut j: usize = 0;
    while j < folders.len()
        invariant
            i < folders@.len(),
            j <= folders@.len(),
            forall|k: int| 0 <= k < j && k != i ==> (#[trigger] folders@[k]).name@ != folders@[i as int].name@,
        decreases folders@.len() - j,
    {
        if j != i && str_eq(folders[j].name.as_str(), folders[i].name.as_str()) {
            return true;
        }
        j = j + 1;
    }
    false
}

/// Whether a conflict for `id` is already listed.
fn conflict_listed(conflicts: &Vec<FolderMoveConflict>, id: u128) -> (r: bool)
    ensures
        r == exists|k: int|
            0 <= k < conflicts@.len() && (#[trigger] conflict_views(conflicts@)[k]).0 == id,
{
    let mut k: usize = 0;
    while k < conflicts.len()
        invariant
            k <= conflicts@.len(),
            forall|m: int| 0 <= m < k ==> (#[trigger] conflicts@[m]).id != id,
        decreases conflicts@.len() - k,
    {
        if conflicts[k].id == id {
            assert(conflict_views(conflicts@)[k as int].0 == id);
            return true;
        }
        k = k + 1;
    }
    assert forall|m: int| 0 <= m < conflicts@.len() implies (#[trigger] conflict_views(conflicts@)[m]).0 != id by {
        assert(conflicts@[m].id != id);
    }
    false
}

/// Finds every folder that blocks an atomic batch move to `destination_id`.
///
/// `descendants[i]` lists the active descendants of `folders[i]`, and
/// `destination_taken[i]` says whether an active node outside the batch
/// already holds `folders[i]`'s name at the destination. Cycle conflicts are
/// listed first; a folder is listed at most once.
pub fn find_move_conflicts(
    folders: &[NodeRecord],
    destination_id: u128,
    descendants: &[Vec<NodeId>],
    destination_taken: &[bool],
) -> (r: Vec<FolderMoveConflict>)
    requires
        descendants@.len() == folders@.len(),
        destination_taken@.len() == folders@.len(),
    ensures
        conflict_views(r@) == move_conflicts_upto(
            folders@,
            destination_id,
            descendants@,
            destination_taken@,
            folders@.len() as int,
        ),
{
    let mut conflicts: Vec<FolderMoveConflict> = Vec::new();
    let mut i: usize = 0;
    while i < folders.len()
        invariant
            i <= folders@.len(),
            descendants@.len() == folders@.len(),
            conflict_views(conflicts@) == cycle_conflicts(
                folders@,
                destination_id,
                descendants@,
                i as int,
            ),
        decreases folders@.len() - i,
    {
        let folder = &folders[i];
        let target = NodeId::new(destination_id);
        let moving = NodeId::new(folder.id);
        let cycle = FolderRules::validate_move_target(moving, target, descendants[i].as_slice()).is_err();
        proof {
            let d = descendants@[i as int]@;
            NodeId::lemma_view_injective(target, moving);
            assert(cycle == move_creates_cycle(folders@[i as int], destination_id, d)) by {
                if d.contains(target) {
                    let k = choose|k: int| 0 <= k < d.len() && #[trigger] d[k] == target;
                    assert(d[k]@ == destination_id);
                }
                if exists|k: int| 0 <= k < d.len() && (#[trigger] d[k])@ == destination_id {
                    let k = choose|k: int| 0 <= k < d.len() && (#[trigger] d[k])@ == destination_id;
                    NodeId::lemma_view_injective(d[k], target);
                    assert(d.contains(target));
                }
            }
        }
        let ghost before = conflicts@;
        if cycle {
            conflicts.push(
                FolderMoveConflict {
                    id: folder.id,
                    name: folder.name.clone(),
                    reason: FolderMoveConflictReason::CycleDetected,
                },
            );
            proof {
                assert(conflict_views(conflicts@) =~= conflict_views(before).push(
                    (folders@[i as int].id, folders@[i as int].name@, FolderMoveConflictReason::CycleDetected),
                ));
            }
        }
        i = i + 1;
    }
    let mut n: usize = 0;
    while n < folders.len()
        invariant
            n <= folders@.len(),
            descendants@.len() == folders@.len(),
            destination_taken@.len() == folders@.len(),
            conflict_views(conflicts@) == move_conflicts_upto(
                folders@,
                destination_id,
                descendants@,
                destination_taken@,
                n as int,
            ),
        decreases folders@.len() - n,
    {
        let folder = &folders[n];
        let ghost before = conflicts@;
        if (namesake_in_batch(folders, n) || destination_taken[n]) && !conflict_listed(
            &conflicts,
            folder.id,
        ) {
            conflicts.push(
                FolderMoveConflict {
                    id: folder.id,
                    name: folder.name.clone(),
                    reason: FolderMoveConflictReason::NameConflict,
                },
            );
            proof {
                assert(conflict_views(conflicts@) =~= conflict_views(before).push(
                    (folders@[n as int].id, folders@[n as int].name@, FolderMoveConflictReason::NameConflict),
                ));
            }
        }
        n = n + 1;
    }
    conflicts
}

/// Column used to sort folder children (folders always sort before files).
#[derive(Clone, Copy, Debug, Default, PartialEq, Eq, Structural)]
pub enum ChildrenSort {
    #[default]
    Name,
    Kind,
    Size,
    UpdatedAt,
    CreatedAt,
}

/// Sort direction for folder children.
#[derive(Clone, Copy, Debug, Default, PartialEq, Eq, Structural)]
pub enum SortOrder {
    #[default]
    Asc,
    Desc,
}

/// Kind filter applied to folder children listings.
#[derive(Clone, Copy, Debug, PartialEq, Eq, Structural)]
pub enum ChildrenKindFilter {
    Folder,
    Image,
    Document,
    Video,
    Audio,
}

/// The SQL direction keyword of a sort order.
pub open spec fn order_sql_text(order: SortOrder) -> Seq<char> {
    match order {
        SortOrder::Asc => "ASC"@,
        SortOrder::Desc => "DESC"@,
    }
}

/// The SQL direction keyword of a sort order.
pub fn children_order_sql(order: SortOrder) -> (r: &'static str)
    ensures
        r@ == order_sql_text(order),
{
    match order {
        SortOrder::Asc => "ASC",
        SortOrder::Desc => "DESC",
    }
}

/// The SQL sort expression of a sort column.
pub open spec fn sort_sql_text(sort: ChildrenSort) -> Seq<char> {
    match sort {
        ChildrenSort::Name => "n.name"@,
        ChildrenSort::Kind => "n.kind::text"@,
        ChildrenSort::Size => "COALESCE(fo.byte_size, 0)"@,
        ChildrenSort::UpdatedAt => "n.updated_at"@,
        ChildrenSort::CreatedAt => "n.created_at"@,
    }
}

/// The SQL sort expression of a sort column.
pub fn children_sort_sql(sort: ChildrenSort) -> (r: &'static str)
    ensures
        r@ == sort_sql_text(sort),
{
    match sort {
        ChildrenSort::Name => "n.name",
        ChildrenSort::Kind => "n.kind::text",
        ChildrenSort::Size => "COALESCE(fo.byte_size, 0)",
        ChildrenSort::UpdatedAt => "n.updated_at",
        ChildrenSort::CreatedAt => "n.created_at",
    }
}

/// The SQL condition one kind filter admits.
pub open spec fn kind_clause_text(kind: ChildrenKindFilter) -> Seq<char> {
    match kind {
        ChildrenKindFilter::Folder => "n.kind = 'folder'"@,
        ChildrenKindFilter::Image => "n.kind = 'file' AND nm.media_kind = 'image'"@,
        ChildrenKindFilter::Document => "n.kind = 'file' AND nm.media_kind = 'document'"@,
        ChildrenKindFilter::Video => "n.kind = 'file' AND nm.media_kind = 'video'"@,
        ChildrenKindFilter::Audio => "n.kind = 'file' AND nm.media_kind = 'audio'"@,
    }
}

/// The SQL condition one kind filter admits.
pub fn children_kind_clause(kind: ChildrenKindFilter) -> (r: &'static str)
    ensures
        r@ == kind_clause_text(kind),
{
    match kind {
        ChildrenKindFilter::Folder => "n.kind = 'folder'",
        ChildrenKindFilter::Image => "n.kind = 'file' AND nm.media_kind = 'image'",
        ChildrenKindFilter::Document => "n.kind = 'file' AND nm.media_kind = 'document'",
        ChildrenKindFilter::Video => "n.kind = 'file' AND nm.media_kind = 'video'",
        ChildrenKindFilter::Audio => "n.kind = 'file' AND nm.media_kind = 'audio'",
    }
}

/// The clauses of the filters joined by ` OR `.
pub open spec fn joined_kind_clauses(kinds: Seq<ChildrenKindFilter>) -> Seq<char>
    decreases kinds.len(),
{
    if kinds.len() == 0 {
        seq![]
    } else if kinds.len() == 1 {
        kind_clause_text(kinds[0])
    } else {
        joined_kind_clauses(kinds.drop_last()) + " OR "@ + kind_clause_text(kinds.last())
    }
}

/// The SQL condition a list of kind filters admits: any one of them, or
/// everything when the list is empty.
pub open spec fn kind_filter_text(kinds: Seq<ChildrenKindFilter>) -> Seq<char> {
    if kinds.len() == 0 {
        "TRUE"@
    } else {
        "("@ + joined_kind_clauses(kinds) + ")"@
    }
}

/// The SQL condition a list of kind filters admits.
pub fn children_kind_filter(kinds: &[ChildrenKindFilter]) -> (r: String)
    ensures
        r@ == kind_filter_text(kinds@),
{
    if kinds.is_empty() {
        return String::from_str("TRUE");
    }
    let mut filter = String::from_str("(");
    let mut i: usize = 0;
    while i < kinds.len()
        invariant
            0 < kinds@.len(),
            i <= kinds@.len(),
            filter@ == "("@ + joined_kind_clauses(kinds@.take(i as int)),
        decreases kinds@.len() - i,
    {
        let ghost before = filter@;
        proof {
            assert(kinds@.take(i + 1).drop_last() =~= kinds@.take(i as int));
            assert(kinds@.take(i + 1).last() == kinds@[i as int]);
        }
        if i > 0 {
            filter.append(" OR ");
        }
        filter.append(children_kind_clause(kinds[i]));
        proof {
            if i == 0 {
                assert(joined_kind_clauses(kinds@.take(0)) =~= Seq::<char>::empty());
                assert(filter@ =~= "("@ + joined_kind_clauses(kinds@.take(1)));
            } else {
                assert(filter@ =~= "("@ + joined_kind_clauses(kinds@.take(i + 1)));
            }
        }
        i = i + 1;
    }
    filter.append(")");
    proof {
        assert(kinds@.take(i as int) =~= kinds@);
    }
    filter
}

/// Name-ascending cursor pagination applies only to the default listing:
/// sorted by name, ascending, unfiltered. Other modes return a single page.
pub fn children_use_name_cursor(
    sort: ChildrenSort,
    order: SortOrder,
    kinds: &[ChildrenKindFilter],
) -> (r: bool)
    ensures
        r == (sort == ChildrenSort::Name && order == SortOrder::Asc && kinds@.len() == 0),
{
    sort == ChildrenSort::Name && order == SortOrder::Asc && kinds.is_empty()
}

/// Later steps only append: the conflicts after `m` steps begin those after
/// `n >= m` steps.
proof fn lemma_conflicts_only_grow(
    folders: Seq<NodeRecord>,
    destination: u128,
    descendants: Seq<Vec<NodeId>>,
    taken: Seq<bool>,
    m: int,
    n: int,
)
    requires
        0 <= m <= n,
    ensures
        move_conflicts_upto(folders, destination, descendants, taken, m).len()
            <= move_conflicts_upto(folders, destination, descendants, taken, n).len(),
        forall|k: int|
            0 <= k < move_conflicts_upto(folders, destination, descendants, taken, m).len()
                ==> #[trigger] move_conflicts_upto(folders, destination, descendants, taken, n)[k]
                == move_conflicts_upto(folders, destination, descendants, taken, m)[k],
    decreases n - m,
{
    if m < n {
        lemma_conflicts_only_grow(folders, destination, descendants, taken, m, n - 1);
    }
}

/// A conflict listed among the first `m` steps stays listed after `n >= m`.
proof fn lemma_listed_stays_listed(
    folders: Seq<NodeRecord>,
    destination: u128,
    descendants: Seq<Vec<NodeId>>,
    taken: Seq<bool>,
    m: int,
    n: int,
    id: u128,
)
    requires
        0 <= m <= n,
        exists|k: int|
            0 <= k < move_conflicts_upto(folders, destination, descendants, taken, m).len()
                && (#[trigger] move_conflicts_upto(folders, destination, descendants, taken, m)[k]).0
                == id,
    ensures
        exists|k: int|
            0 <= k < move_conflicts_upto(folders, destination, descendants, taken, n).len()
                && (#[trigger] move_conflicts_upto(folders, destination, descendants, taken, n)[k]).0
                == id,
    decreases n - m,
{
    if m < n {
        lemma_listed_stays_listed(folders, destination, descendants, taken, m, n - 1, id);
        let prev = move_conflicts_upto(folders, destination, descendants, taken, n - 1);
        let k = choose|k: int| 0 <= k < prev.len() && (#[trigger] prev[k]).0 == id;
        let next = move_conflicts_upto(folders, destination, descendants, taken, n);
        assert(next[k] == prev[k]);
    }
}

/// A folder whose move creates a cycle is listed among the cycle conflicts.
proof fn lemma_cycle_listed(
    folders: Seq<NodeRecord>,
    destination: u128,
    descendants: Seq<Vec<NodeId>>,
    n: int,
    i: int,
)
    requires
        0 <= i < n <= folders.len(),
        descendants.len() == folders.len(),
        move_creates_cycle(folders[i], destination, descendants[i]@),
    ensures
        exists|k: int|
            0 <= k < cycle_conflicts(folders, destination, descendants, n).len() && #[trigger] cycle_conflicts(
                folders,
                destination,
                descendants,
                n,
            )[k] == (folders[i].id, folders[i].name@, FolderMoveConflictReason::CycleDetected),
    decreases n,
{
    let entry = (folders[i].id, folders[i].name@, FolderMoveConflictReason::CycleDetected);
    let cur = cycle_conflicts(folders, destination, descendants, n);
    if i == n - 1 {
        assert(cur[cur.len() - 1] == entry);
    } else {
        lemma_cycle_listed(folders, destination, descendants, n - 1, i);
        let prev = cycle_conflicts(folders, destination, descendants, n - 1);
        let k = choose|k: int| 0 <= k < prev.len() && #[trigger] prev[k] == entry;
        assert(cur[k] == entry);
    }
}

/// Every folder that blocks the move is reported. A folder whose move would
/// put it under itself (it is the destination, or the destination is one of
/// its descendants) is listed as a cycle conflict; a folder that shares its
/// name with any other folder of the batch, before or after it, or whose
/// name is already taken at the destination, is listed too, so both folders
/// of a clashing pair appear.
pub proof fn lemma_move_conflicts_report_every_blocked_folder(
    folders: Seq<NodeRecord>,
    destination: u128,
    descendants: Seq<Vec<NodeId>>,
    taken: Seq<bool>,
    i: int,
)
    requires
        descendants.len() == folders.len(),
        taken.len() == folders.len(),
        0 <= i < folders.len(),
    ensures
        (folders[i].id == destination || exists|d: int|
            0 <= d < descendants[i]@.len() && (#[trigger] descendants[i]@[d])@ == destination)
            ==> exists|k: int|
            0 <= k < move_conflicts_upto(folders, destination, descendants, taken, folders.len() as int).len()
                && #[trigger] move_conflicts_upto(folders, destination, descendants, taken, folders.len() as int)[k]
                == (folders[i].id, folders[i].name@, FolderMoveConflictReason::CycleDetected),
        ((exists|j: int| 0 <= j < folders.len() && j != i && (#[trigger] folders[j]).name@ == folders[i].name@)
            || taken[i]) ==> exists|k: int|
            0 <= k < move_conflicts_upto(folders, destination, descendants, taken, folders.len() as int).len()
                && (#[trigger] move_conflicts_upto(folders, destination, descendants, taken, folders.len() as int)[k]).0
                == folders[i].id,
{
    let n = folders.len() as int;
    if folders[i].id == destination || exists|d: int|
        0 <= d < descendants[i]@.len() && (#[trigger] descendants[i]@[d])@ == destination {
        lemma_cycle_listed(folders, destination, descendants, n, i);
        let base = cycle_conflicts(folders, destination, descendants, n);
        let entry = (folders[i].id, folders[i].name@, FolderMoveConflictReason::CycleDetected);
        let k = choose|k: int| 0 <= k < base.len() && #[trigger] base[k] == entry;
        assert(move_conflicts_upto(folders, destination, descendants, taken, 0)[k] == entry);
        lemma_conflicts_only_grow(folders, destination, descendants, taken, 0, n);
        assert(move_conflicts_upto(folders, destination, descendants, taken, n)[k] == entry);
    }
    if (exists|j: int| 0 <= j < folders.len() && j != i && (#[trigger] folders[j]).name@ == folders[i].name@)
        || taken[i] {
        assert(has_namesake(folders, i) || taken[i]);
        let prev = move_conflicts_upto(folders, destination, descendants, taken, i);
        let cur = move_conflicts_upto(folders, destination, descendants, taken, i + 1);
        if exists|k: int| 0 <= k < prev.len() && (#[trigger] prev[k]).0 == folders[i].id {
            lemma_listed_stays_listed(folders, destination, descendants, taken, i, i + 1, folders[i].id);
        } else {
            assert(cur[cur.len() - 1].0 == folders[i].id);
        }
        lemma_listed_stays_listed(folders, destination, descendants, taken, i + 1, n, folders[i].id);
    }
}

} // verus!
