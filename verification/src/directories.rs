//! Parent-first ordering of the directories a scan discovers.
//!
//! A scan reports every directory it found so that the hierarchy can be
//! recreated, which needs each folder to come after its parent. Directories
//! are ordered by their components, compared byte by byte, one component at
//! a time; a parent's components are a prefix of its child's, so the parent
//! always comes first.

use vstd::prelude::*;

verus! {

/// Lexicographic order on byte strings; a proper prefix comes first.
pub open spec fn bytes_le(a: Seq<u8>, b: Seq<u8>) -> bool
    decreases a.len(),
{
    if a.len() == 0 {
        true
    } else if b.len() == 0 {
        false
    } else if a[0] != b[0] {
        a[0] < b[0]
    } else {
        bytes_le(a.drop_first(), b.drop_first())
    }
}

proof fn lemma_bytes_le_reflexive(a: Seq<u8>)
    ensures
        bytes_le(a, a),
    decreases a.len(),
{
    if a.len() > 0 {
        lemma_bytes_le_reflexive(a.drop_first());
    }
}

proof fn lemma_bytes_le_total(a: Seq<u8>, b: Seq<u8>)
    ensures
        bytes_le(a, b) || bytes_le(b, a),
    decreases a.len(),
{
    if a.len() > 0 && b.len() > 0 && a[0] == b[0] {
        lemma_bytes_le_total(a.drop_first(), b.drop_first());
    }
}

proof fn lemma_bytes_le_transitive(a: Seq<u8>, b: Seq<u8>, c: Seq<u8>)
    requires
        bytes_le(a, b),
        bytes_le(b, c),
    ensures
        bytes_le(a, c),
    decreases a.len(),
{
    if a.len() > 0 && b.len() > 0 && c.len() > 0 && a[0] == b[0] && b[0] == c[0] {
        lemma_bytes_le_transitive(a.drop_first(), b.drop_first(), c.drop_first());
    }
}

proof fn lemma_bytes_le_antisymmetric(a: Seq<u8>, b: Seq<u8>)
    requires
        bytes_le(a, b),
        bytes_le(b, a),
    ensures
        a == b,
    decreases a.len(),
{
    if a.len() > 0 && b.len() > 0 {
        lemma_bytes_le_antisymmetric(a.drop_first(), b.drop_first());
        assert(a =~= seq![a[0]] + a.drop_first());
        assert(b =~= seq![b[0]] + b.drop_first());
    }
}

/// A prefix comes no later than the string it begins.
proof fn lemma_prefix_bytes_le(a: Seq<u8>, b: Seq<u8>)
    requires
        a.len() <= b.len(),
        b.take(a.len() as int) == a,
    ensures
        bytes_le(a, b),
    decreases a.len(),
{
    if a.len() > 0 {
        assert(a[0] == b.take(a.len() as int)[0]);
        assert(b.drop_first().take(a.drop_first().len() as int) =~= a.drop_first()) by {
            assert forall|i: int| 0 <= i < a.len() - 1 implies b.drop_first()[i] == a.drop_first()[i] by {
                assert(b.take(a.len() as int)[i + 1] == a[i + 1]);
            }
        }
        lemma_prefix_bytes_le(a.drop_first(), b.drop_first());
    }
}

/// Whether `a` comes no later than `b` in byte order.
pub fn bytes_le_exec(a: &[u8], b: &[u8]) -> (r: bool)
    ensures
        r == bytes_le(a@, b@),
{
    let mut i: usize = 0;
    proof {
        assert(a@.skip(0) =~= a@);
        assert(b@.skip(0) =~= b@);
    }
    while i < a.len() && i < b.len()
        invariant
            i <= a@.len(),
            i <= b@.len(),
            a@.take(i as int) == b@.take(i as int),
            bytes_le(a@, b@) == bytes_le(a@.skip(i as int), b@.skip(i as int)),
        decreases a@.len() - i,
    {
        let x = a[i];
        let y = b[i];
        proof {
            assert(a@.skip(i as int)[0] == x);
            assert(b@.skip(i as int)[0] == y);
        }
        if x != y {
            return x < y;
        }
        proof {
            assert(a@.skip(i as int).drop_first() =~= a@.skip(i + 1));
            assert(b@.skip(i as int).drop_first() =~= b@.skip(i + 1));
            assert(a@.take(i + 1) =~= a@.take(i as int).push(x));
            assert(b@.take(i + 1) =~= b@.take(i as int).push(y));
        }
        i = i + 1;
    }
    i == a.len()
}

/// A component list as byte strings.
pub open spec fn component_views(parts: Seq<Vec<u8>>) -> Seq<Seq<u8>> {
    parts.map_values(|part: Vec<u8>| part@)
}

/// The sort key of a relative directory: its components joined by NUL bytes.
/// No file name holds a NUL byte and no name is empty, so keys compare as the
/// component lists do, one component at a time.
pub open spec fn directory_key(parts: Seq<Seq<u8>>) -> Seq<u8>
    decreases parts.len(),
{
    if parts.len() == 0 {
        seq![]
    } else if parts.len() == 1 {
        parts[0]
    } else {
        directory_key(parts.drop_last()) + seq![0u8] + parts.last()
    }
}

/// The keys of a list of directories.
pub open spec fn directory_keys(dirs: Seq<Vec<Vec<u8>>>) -> Seq<Seq<u8>> {
    dirs.map_values(|dir: Vec<Vec<u8>>| directory_key(component_views(dir@)))
}

/// Every position below `n` exactly once.
pub open spec fn is_permutation(order: Seq<usize>, n: int) -> bool {
    &&& order.len() == n
    &&& forall|i: int| 0 <= i < order.len() ==> order[i] < n
    &&& forall|i: int, j: int| 0 <= i < j < order.len() ==> order[i] != order[j]
    &&& forall|k: usize| k < n ==> #[trigger] order.contains(k)
}

/// The positions, taken in order, visit the keys in byte order.
pub open spec fn sorted_by_keys(keys: Seq<Seq<u8>>, order: Seq<usize>) -> bool {
    forall|i: int, j: int|
        0 <= i < j < order.len() ==> bytes_le(keys[order[i] as int], keys[order[j] as int])
}

/// The key of one directory.
fn directory_key_exec(parts: &Vec<Vec<u8>>) -> (key: Vec<u8>)
    ensures
        key@ == directory_key(component_views(parts@)),
{
    let mut key: Vec<u8> = Vec::new();
    let mut i: usize = 0;
    while i < parts.len()
        invariant
            i <= parts@.len(),
            key@ == directory_key(component_views(parts@.take(i as int))),
        decreases parts@.len() - i,
    {
        let ghost before = key@;
        let ghost next = component_views(parts@.take(i + 1));
        proof {
            assert(next.drop_last() =~= component_views(parts@.take(i as int)));
            assert(next.last() == parts@[i as int]@);
        }
        if i > 0 {
            key.push(0u8);
        }
        let ghost joined = key@;
        let part = &parts[i];
        let mut j: usize = 0;
        while j < part.len()
            invariant
                j <= part@.len(),
                part == &parts@[i as int],
                key@ == joined + part@.take(j as int),
            decreases part@.len() - j,
        {
            key.push(part[j]);
            proof {
                assert(part@.take(j + 1) =~= part@.take(j as int).push(part@[j as int]));
            }
            j = j + 1;
        }
        proof {
            assert(part@.take(part@.len() as int) =~= part@);
            if i == 0 {
                assert(joined =~= seq![]);
                assert(next.len() == 1);
            } else {
                assert(joined == before + seq![0u8]);
            }
        }
        i = i + 1;
    }
    proof {
        assert(parts@.take(parts@.len() as int) =~= parts@);
    }
    key
}

/// Inserting a position where its key belongs keeps the order sorted.
proof fn lemma_insert_keeps_sorted(keys: Seq<Seq<u8>>, order: Seq<usize>, p: int, k: usize)
    requires
        0 <= p <= order.len(),
        k < keys.len(),
        forall|i: int| 0 <= i < order.len() ==> order[i] < keys.len(),
        sorted_by_keys(keys, order),
        forall|q: int| 0 <= q < p ==> bytes_le(keys[order[q] as int], keys[k as int]),
        p < order.len() ==> bytes_le(keys[k as int], keys[order[p] as int]),
    ensures
        sorted_by_keys(keys, order.insert(p, k)),
{
    let next = order.insert(p, k);
    assert forall|i: int, j: int| 0 <= i < j < next.len() implies bytes_le(
        keys[next[i] as int],
        keys[next[j] as int],
    ) by {
        if j < p {
            assert(next[i] == order[i] && next[j] == order[j]);
        } else if j == p {
            assert(next[i] == order[i] && next[j] == k);
        } else if i < p {
            assert(next[i] == order[i] && next[j] == order[j - 1]);
        } else if i == p {
            assert(next[i] == k && next[j] == order[j - 1]);
            if j - 1 > p {
                lemma_bytes_le_transitive(keys[k as int], keys[order[p] as int], keys[order[j - 1] as int]);
            }
        } else {
            assert(next[i] == order[i - 1] && next[j] == order[j - 1]);
        }
    }
}

/// The order in which to list `dirs` (each a relative directory given by its
/// components) so that their keys ascend: every position exactly once.
pub fn parent_first_order(dirs: &[Vec<Vec<u8>>]) -> (order: Vec<usize>)
    ensures
        is_permutation(order@, dirs@.len() as int),
        sorted_by_keys(directory_keys(dirs@), order@),
{
    let ghost all_keys = directory_keys(dirs@);
    let mut keys: Vec<Vec<u8>> = Vec::new();
    let mut k: usize = 0;
    while k < dirs.len()
        invariant
            k <= dirs@.len(),
            keys@.len() == k,
            all_keys == directory_keys(dirs@),
            forall|i: int| 0 <= i < k ==> #[trigger] keys@[i]@ == all_keys[i],
        decreases dirs@.len() - k,
    {
        keys.push(directory_key_exec(&dirs[k]));
        k = k + 1;
    }
    let ghost key_views = keys@.map_values(|key: Vec<u8>| key@);
    assert(key_views =~= all_keys);
    let mut order: Vec<usize> = Vec::new();
    let mut k: usize = 0;
    while k < dirs.len()
        invariant
            k <= dirs@.len(),
            keys@.len() == dirs@.len(),
            key_views == all_keys,
            key_views == keys@.map_values(|key: Vec<u8>| key@),
            is_permutation(order@, k as int),
            sorted_by_keys(all_keys, order@),
        decreases dirs@.len() - k,
    {
        let mut p: usize = 0;
        while p < order.len() && bytes_le_exec(keys[order[p]].as_slice(), keys[k].as_slice())
            invariant
                k < dirs@.len(),
                keys@.len() == dirs@.len(),
                key_views == keys@.map_values(|key: Vec<u8>| key@),
                is_permutation(order@, k as int),
                p <= order@.len(),
                forall|q: int| 0 <= q < p ==> bytes_le(all_keys[order@[q] as int], all_keys[k as int]),
                key_views == all_keys,
            decreases order@.len() - p,
        {
            p = p + 1;
        }
        proof {
            if p < order@.len() {
                lemma_bytes_le_total(all_keys[order@[p as int] as int], all_keys[k as int]);
            }
            lemma_insert_keeps_sorted(all_keys, order@, p as int, k);
        }
        let ghost old_order = order@;
        order.insert(p, k);
        proof {
            let next = order@;
            assert(next == old_order.insert(p as int, k));
            assert forall|i: int| 0 <= i < next.len() implies next[i] < k + 1 by {
                if i < p {
                    assert(next[i] == old_order[i]);
                } else if i > p {
                    assert(next[i] == old_order[i - 1]);
                }
            }
            assert forall|i: int, j: int| 0 <= i < j < next.len() implies next[i] != next[j] by {
                if i < p && j < p {
                    assert(next[i] == old_order[i] && next[j] == old_order[j]);
                } else if i < p && j == p {
                    assert(next[i] == old_order[i]);
                } else if i < p {
                    assert(next[i] == old_order[i] && next[j] == old_order[j - 1]);
                } else if i == p {
                    assert(next[j] == old_order[j - 1]);
                } else {
                    assert(next[i] == old_order[i - 1] && next[j] == old_order[j - 1]);
                }
            }
            assert forall|m: usize| m < k + 1 implies next.contains(m) by {
                if m == k {
                    assert(next[p as int] == k);
                } else {
                    assert(old_order.contains(m));
                    let w = choose|w: int| 0 <= w < old_order.len() && old_order[w] == m;
                    if w < p {
                        assert(next[w] == m);
                    } else {
                        assert(next[w + 1] == m);
                    }
                }
            }
        }
        k = k + 1;
    }
    order
}

/// `parent` names the directory that directly contains `child`.
pub open spec fn is_parent_of(parent: Seq<Seq<u8>>, child: Seq<Seq<u8>>) -> bool {
    parent.len() >= 1 && child.len() == parent.len() + 1 && child.drop_last() == parent
}

/// Parents come first: when directories are listed in an order that sorts
/// their keys, a directory and its parent listed together appear parent
/// first, so the hierarchy can be recreated from the front of the list.
pub proof fn lemma_parents_come_first(dirs: Seq<Vec<Vec<u8>>>, order: Seq<usize>, i: int, j: int)
    requires
        is_permutation(order, dirs.len() as int),
        sorted_by_keys(directory_keys(dirs), order),
        0 <= i < order.len(),
        0 <= j < order.len(),
        is_parent_of(
            component_views(dirs[order[i] as int]@),
            component_views(dirs[order[j] as int]@),
        ),
    ensures
        i < j,
{
    let keys = directory_keys(dirs);
    let parent = component_views(dirs[order[i] as int]@);
    let child = component_views(dirs[order[j] as int]@);
    let parent_key = directory_key(parent);
    let child_key = directory_key(child);
    assert(keys[order[i] as int] == parent_key);
    assert(keys[order[j] as int] == child_key);
    assert(child_key == parent_key + seq![0u8] + child.last());
    assert(child_key.take(parent_key.len() as int) =~= parent_key);
    lemma_prefix_bytes_le(parent_key, child_key);
    if j < i {
        lemma_bytes_le_antisymmetric(parent_key, child_key);
        assert(false);
    }
    if i == j {
        assert(parent == child);
        assert(false);
    }
}

} // verus!
