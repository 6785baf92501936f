//! The editor's offline scene: the structure of the scene document it edits
//! while the render engine is down.
//!
//! Entities are kept in document order. Each has an offline id (allocated
//! increasingly from [`FIRST_ID`]), an optional parent id, a name and a
//! payload of type `P` that this module carries along but never reads
//! (transforms, materials, lights and scripts live there). Parenting is by
//! id, so renames never break the tree; names are kept distinct through a
//! name set, as the document's readable references are by name.

use vstd::prelude::*;
use crate::names::{lemma_unique_name_fresh, numbered, NameSet, string_views, unique_name_spec};
use crate::ipc::{ComponentKind, HierNode, MeshPrimitive, NodeIcon};

verus! {

/// Offline ids start high so they are visually distinct in logs (and never
/// collide with the "no entity" sentinel).
pub const FIRST_ID: u64 = 1000;

/// Position of `id` among `ids`, if present.
pub open spec fn index_of_spec(ids: Seq<u64>, id: u64) -> Option<int> {
    if exists|i: int| 0 <= i < ids.len() && ids[i] == id {
        Some(choose|i: int| 0 <= i < ids.len() && ids[i] == id)
    } else {
        None
    }
}

/// Strictly increasing ids.
pub open spec fn increasing(ids: Seq<u64>) -> bool {
    forall|i: int, j: int| 0 <= i < j < ids.len() ==> ids[i] < ids[j]
}

/// In strictly increasing ids, a position holding `id` is the position.
pub proof fn lemma_index_of_unique(ids: Seq<u64>, id: u64, k: int)
    requires
        increasing(ids),
        0 <= k < ids.len(),
        ids[k] == id,
    ensures
        index_of_spec(ids, id) == Some(k),
{
    let c = choose|i: int| 0 <= i < ids.len() && ids[i] == id;
    if c < k {
        assert(ids[c] < ids[k]);
    } else if c > k {
        assert(ids[k] < ids[c]);
    }
}

/// Indices below `n` whose parent is `target`, in document order.
pub open spec fn children_upto(parents: Seq<Option<u64>>, target: Option<u64>, n: int) -> Seq<int>
    decreases n,
{
    if n <= 0 {
        Seq::empty()
    } else if parents[n - 1] == target {
        children_upto(parents, target, n - 1).push(n - 1)
    } else {
        children_upto(parents, target, n - 1)
    }
}

/// Indices whose parent is `target`, in document order (`None`: the roots).
pub open spec fn children_of(parents: Seq<Option<u64>>, target: Option<u64>) -> Seq<int> {
    children_upto(parents, target, parents.len() as int)
}

/// The indices of a children list are in range and increasing.
pub proof fn lemma_children_upto(parents: Seq<Option<u64>>, target: Option<u64>, n: int)
    requires
        0 <= n <= parents.len(),
    ensures
        forall|k: int| 0 <= k < children_upto(parents, target, n).len() ==>
            0 <= #[trigger] children_upto(parents, target, n)[k] < n
            && parents[children_upto(parents, target, n)[k]] == target,
        forall|k: int, l: int| 0 <= k < l < children_upto(parents, target, n).len() ==>
            #[trigger] children_upto(parents, target, n)[k] < #[trigger] children_upto(parents, target, n)[l],
        forall|i: int| 0 <= i < n && parents[i] == target ==> children_upto(parents, target, n).contains(i),
    decreases n,
{
    if n > 0 {
        lemma_children_upto(parents, target, n - 1);
        let prev = children_upto(parents, target, n - 1);
        if parents[n - 1] == target {
            assert forall|i: int| 0 <= i < n && parents[i] == target implies children_upto(parents, target, n).contains(i) by {
                if i < n - 1 {
                    let k = choose|k: int| 0 <= k < prev.len() && prev[k] == i;
                    assert(children_upto(parents, target, n)[k] == i);
                } else {
                    assert(children_upto(parents, target, n)[prev.len() as int] == i);
                }
            }
        }
    }
}

/// The descendants of `id`, depth first, visiting each entity's children
/// last-to-first (a worklist that always continues with the most recently
/// found child). `fuel` bounds the depth explored.
pub open spec fn descendants_spec(ids: Seq<u64>, parents: Seq<Option<u64>>, id: u64, fuel: nat) -> Seq<int>
    decreases fuel, 0nat,
{
    if fuel == 0 {
        Seq::empty()
    } else {
        descendants_of_list(ids, parents, children_of(parents, Some(id)), (fuel - 1) as nat)
    }
}

/// The entities of `cs` taken last to first, each followed by its
/// descendants.
pub open spec fn descendants_of_list(ids: Seq<u64>, parents: Seq<Option<u64>>, cs: Seq<int>, fuel: nat) -> Seq<int>
    decreases fuel, cs.len() + 1,
{
    if cs.len() == 0 {
        Seq::empty()
    } else {
        seq![cs.last()] + descendants_spec(ids, parents, ids[cs.last()], fuel)
            + descendants_of_list(ids, parents, cs.drop_last(), fuel)
    }
}

/// The entity `id` (when present) followed by its descendants.
pub open spec fn subtree_spec(ids: Seq<u64>, parents: Seq<Option<u64>>, id: u64) -> Seq<int> {
    let d = descendants_spec(ids, parents, id, ids.len());
    match index_of_spec(ids, id) {
        Some(i) => seq![i] + d,
        None => d,
    }
}

/// The elements of `s` from position `lo` on whose positions are not in `d`.
pub open spec fn kept<T>(s: Seq<T>, d: Set<int>, lo: int) -> Seq<T>
    decreases s.len() - lo,
{
    if lo >= s.len() || lo < 0 {
        Seq::empty()
    } else if d.contains(lo) {
        kept(s, d, lo + 1)
    } else {
        seq![s[lo]] + kept(s, d, lo + 1)
    }
}

/// Keeping positions of a strictly increasing sequence keeps it strictly
/// increasing, with elements taken from the kept range.
pub proof fn lemma_kept_increasing(s: Seq<u64>, d: Set<int>, lo: int)
    requires
        increasing(s),
        0 <= lo,
    ensures
        increasing(kept(s, d, lo)),
        forall|k: int| 0 <= k < kept(s, d, lo).len() ==> exists|j: int| lo <= j < s.len() && s[j] == #[trigger] kept(s, d, lo)[k],
    decreases s.len() - lo,
{
    if lo < s.len() {
        lemma_kept_increasing(s, d, lo + 1);
        let rest = kept(s, d, lo + 1);
        if !d.contains(lo) {
            let r = kept(s, d, lo);
            assert(r == seq![s[lo]] + rest);
            assert forall|k: int| 0 <= k < r.len() implies exists|j: int| lo <= j < s.len() && s[j] == #[trigger] r[k] by {
                if k == 0 {
                    assert(s[lo] == r[0]);
                } else {
                    assert(r[k] == rest[k - 1]);
                    let j = choose|j: int| lo + 1 <= j < s.len() && s[j] == rest[k - 1];
                    assert(s[j] == r[k]);
                }
            }
            assert forall|a: int, b: int| 0 <= a < b < r.len() implies r[a] < r[b] by {
                if a == 0 {
                    assert(r[b] == rest[b - 1]);
                    let j = choose|j: int| lo + 1 <= j < s.len() && s[j] == rest[b - 1];
                    assert(s[lo] < s[j]);
                } else {
                    assert(r[a] == rest[a - 1]);
                    assert(r[b] == rest[b - 1]);
                }
            }
        }
    }
}

/// Every element kept comes from a position at or after `lo` that is not
/// dropped.
pub proof fn lemma_kept_from<T>(s: Seq<T>, d: Set<int>, lo: int)
    requires
        0 <= lo,
    ensures
        forall|k: int| 0 <= k < kept(s, d, lo).len() ==> exists|j: int|
            lo <= j < s.len() && !d.contains(j) && s[j] == #[trigger] kept(s, d, lo)[k],
    decreases s.len() - lo,
{
    if lo < s.len() {
        lemma_kept_from(s, d, lo + 1);
        let rest = kept(s, d, lo + 1);
        let r = kept(s, d, lo);
        if d.contains(lo) {
            assert(r == rest);
        } else {
            assert(r == seq![s[lo]] + rest);
            assert forall|k: int| 0 <= k < r.len() implies exists|j: int|
                lo <= j < s.len() && !d.contains(j) && s[j] == #[trigger] r[k] by {
                if k == 0 {
                    assert(s[lo] == r[0]);
                } else {
                    assert(r[k] == rest[k - 1]);
                    let j = choose|j: int| lo + 1 <= j < s.len() && !d.contains(j) && s[j] == rest[k - 1];
                    assert(s[j] == r[k]);
                }
            }
        }
    }
}

/// A dropped position's id is gone from the kept ids, and so is any id that
/// was never there.
pub proof fn lemma_kept_excludes(s: Seq<u64>, d: Set<int>, x: u64)
    requires
        increasing(s),
        forall|m: int| 0 <= m < s.len() && s[m] == x ==> d.contains(m),
    ensures
        !kept(s, d, 0).contains(x),
{
    lemma_kept_from(s, d, 0);
    let r = kept(s, d, 0);
    if r.contains(x) {
        let k = choose|k: int| 0 <= k < r.len() && r[k] == x;
        let j = choose|j: int| 0 <= j < s.len() && !d.contains(j) && s[j] == #[trigger] r[k];
        assert(d.contains(j));
    }
}

/// Parents whose entity vanished (ids below `next` that are no longer
/// present) become roots.
pub open spec fn fix_orphans(parents: Seq<Option<u64>>, ids: Seq<u64>, next: nat) -> Seq<Option<u64>> {
    Seq::new(parents.len(), |i: int| match parents[i] {
        Some(p) => if p < next && !ids.contains(p) { None } else { Some(p) },
        None => None,
    })
}

/// The names at the positions listed in `sub`.
pub open spec fn names_at(names: Seq<Seq<char>>, sub: Seq<int>) -> Set<Seq<char>> {
    Set::new(|x: Seq<char>| exists|k: int| 0 <= k < sub.len() && names[sub[k]] == x)
}

/// Descendant lists hold positions in range.
pub proof fn lemma_descendants_in_range(ids: Seq<u64>, parents: Seq<Option<u64>>, id: u64, fuel: nat)
    requires
        parents.len() == ids.len(),
    ensures
        forall|k: int| 0 <= k < descendants_spec(ids, parents, id, fuel).len() ==>
            0 <= #[trigger] descendants_spec(ids, parents, id, fuel)[k] < ids.len(),
    decreases fuel, 0nat,
{
    if fuel > 0 {
        lemma_children_upto(parents, Some(id), parents.len() as int);
        lemma_descendants_of_list_in_range(ids, parents, children_of(parents, Some(id)), (fuel - 1) as nat);
        assert(descendants_spec(ids, parents, id, fuel)
            == descendants_of_list(ids, parents, children_of(parents, Some(id)), (fuel - 1) as nat));
    }
}

/// Descendant lists of in-range children hold positions in range.
pub proof fn lemma_descendants_of_list_in_range(ids: Seq<u64>, parents: Seq<Option<u64>>, cs: Seq<int>, fuel: nat)
    requires
        parents.len() == ids.len(),
        forall|j: int| 0 <= j < cs.len() ==> 0 <= #[trigger] cs[j] < ids.len(),
    ensures
        forall|k: int| 0 <= k < descendants_of_list(ids, parents, cs, fuel).len() ==>
            0 <= #[trigger] descendants_of_list(ids, parents, cs, fuel)[k] < ids.len(),
    decreases fuel, cs.len() + 1,
{
    if cs.len() > 0 {
        let a = seq![cs.last()];
        let b = descendants_spec(ids, parents, ids[cs.last()], fuel);
        let c = descendants_of_list(ids, parents, cs.drop_last(), fuel);
        lemma_descendants_in_range(ids, parents, ids[cs.last()], fuel);
        lemma_descendants_of_list_in_range(ids, parents, cs.drop_last(), fuel);
        let r = descendants_of_list(ids, parents, cs, fuel);
        assert(r == a + b + c);
        assert forall|k: int| 0 <= k < r.len() implies 0 <= #[trigger] r[k] < ids.len() by {
            if k < 1 {
            } else if k < 1 + b.len() {
                assert(r[k] == b[k - 1]);
            } else {
                assert(r[k] == c[k - 1 - b.len()]);
            }
        }
    }
}

/// One step of [`kept`] from position `lo`.
pub proof fn lemma_kept_step<T>(s: Seq<T>, d: Set<int>, lo: int)
    requires
        0 <= lo < s.len(),
    ensures
        kept(s, d, lo) == if d.contains(lo) { kept(s, d, lo + 1) } else { seq![s[lo]] + kept(s, d, lo + 1) },
{
}

/// Whether `x` is listed in `v`.
fn listed(v: &Vec<usize>, x: usize) -> (r: bool)
    ensures
        r == v@.map_values(|y: usize| y as int).contains(x as int),
{
    let n = v.len();
    let mut i: usize = 0;
    while i < n
        invariant
            n == v@.len(),
            i <= n,
            forall|k: int| 0 <= k < i ==> v@[k] != x,
        decreases n - i,
    {
        if v[i] == x {
            assert(v@.map_values(|y: usize| y as int)[i as int] == x as int);
            return true;
        }
        i = i + 1;
    }
    proof {
        let m = v@.map_values(|y: usize| y as int);
        if m.contains(x as int) {
            let k = choose|k: int| 0 <= k < m.len() && m[k] == x as int;
            assert(v@[k] == x);
        }
    }
    false
}

/// Whether `x` is one of `v`.
fn id_listed(v: &Vec<u64>, x: u64) -> (r: bool)
    ensures
        r == v@.contains(x),
{
    let n = v.len();
    let mut i: usize = 0;
    while i < n
        invariant
            n == v@.len(),
            i <= n,
            forall|k: int| 0 <= k < i ==> v@[k] != x,
        decreases n - i,
    {
        if v[i] == x {
            return true;
        }
        i = i + 1;
    }
    false
}

/// The name set after copying the first `k` entities of `sub`, each copy
/// named after its source (made unique against the set so far).
pub open spec fn copies_taken(taken: Set<Seq<char>>, names: Seq<Seq<char>>, sub: Seq<int>, k: nat) -> Set<Seq<char>>
    decreases k,
{
    if k == 0 {
        taken
    } else {
        let prev = copies_taken(taken, names, sub, (k - 1) as nat);
        prev.insert(unique_name_spec(prev, names[sub[k - 1]]))
    }
}

/// The name of the copy of `sub[k]`.
pub open spec fn copy_name(taken: Set<Seq<char>>, names: Seq<Seq<char>>, sub: Seq<int>, k: nat) -> Seq<char> {
    unique_name_spec(copies_taken(taken, names, sub, k), names[sub[k as int]])
}

/// Whether `j` is the first copy position whose source has id `p`.
pub open spec fn first_copy_of(ids: Seq<u64>, sub: Seq<int>, p: u64, j: int, k: int) -> bool {
    &&& 0 <= j < k
    &&& ids[sub[j]] == p
    &&& forall|l: int| 0 <= l < j ==> ids[#[trigger] sub[l]] != p
}

/// The parent of the copy of `sub[k]`: the copy of the source's parent when
/// that parent was copied earlier, else that parent itself.
pub open spec fn copy_parent(ids: Seq<u64>, parents: Seq<Option<u64>>, sub: Seq<int>, next: nat, k: int) -> Option<u64> {
    match parents[sub[k]] {
        None => None,
        Some(p) => if exists|j: int| first_copy_of(ids, sub, p, j, k) {
            Some((next + choose|j: int| first_copy_of(ids, sub, p, j, k)) as u64)
        } else {
            Some(p)
        },
    }
}

/// The parent id of the entity with id `c` (none when `c` is not present).
pub open spec fn parent_of_id(ids: Seq<u64>, parents: Seq<Option<u64>>, c: u64) -> Option<u64> {
    match index_of_spec(ids, c) {
        Some(i) => parents[i],
        None => None,
    }
}

/// How a walk up the parent chain ends.
#[derive(Debug, Clone, Copy, PartialEq, Eq, Structural)]
pub enum WalkEnd {
    /// The chain reached the target entity.
    Hits,
    /// The chain ran out (a root, or a parent id that is not present).
    Ends,
    /// The walk took more steps than there are entities: the chain cycles.
    Exhausted,
}

/// Walk up from `cursor` looking for `target`, for at most `fuel` steps.
pub open spec fn walk(ids: Seq<u64>, parents: Seq<Option<u64>>, cursor: Option<u64>, target: u64, fuel: nat) -> WalkEnd
    decreases fuel,
{
    match cursor {
        None => WalkEnd::Ends,
        Some(c) => if c == target {
            WalkEnd::Hits
        } else if fuel == 0 {
            WalkEnd::Exhausted
        } else {
            walk(ids, parents, parent_of_id(ids, parents, c), target, (fuel - 1) as nat)
        },
    }
}

/// Per-entity facts the hierarchy panel shows that live in the payload.
#[derive(Debug, Clone, Copy, PartialEq, Eq, Structural)]
pub struct NodeFlags {
    pub icon: NodeIcon,
    pub visible: bool,
    pub locked: bool,
}

/// The facts of one hierarchy row, as values.
pub struct HierView {
    pub id: u64,
    pub name: Seq<char>,
    pub icon: NodeIcon,
    pub visible: bool,
    pub locked: bool,
    pub has_children: bool,
    pub depth: nat,
    pub selected: bool,
}

/// The facts of a hierarchy row.
pub open spec fn hier_view(h: HierNode) -> HierView {
    HierView {
        id: h.id,
        name: h.name@,
        icon: h.icon,
        visible: h.visible,
        locked: h.locked,
        has_children: h.has_children,
        depth: h.depth as nat,
        selected: h.selected,
    }
}

/// Deepest level the hierarchy shows.
pub const MAX_DEPTH: u32 = 64;

/// The row of entity `i` at `depth`.
pub open spec fn row_of(
    ids: Seq<u64>,
    parents: Seq<Option<u64>>,
    names: Seq<Seq<char>>,
    flags: Seq<NodeFlags>,
    selected: Option<u64>,
    i: int,
    depth: nat,
) -> HierView {
    HierView {
        id: ids[i],
        name: names[i],
        icon: flags[i].icon,
        visible: flags[i].visible,
        locked: flags[i].locked,
        has_children: children_of(parents, Some(ids[i])).len() > 0,
        depth,
        selected: selected == Some(ids[i]),
    }
}

/// The rows of the subtree of entity `i` placed at `depth`: the entity,
/// then its children's subtrees in document order one level deeper; nothing
/// below [`MAX_DEPTH`].
pub open spec fn tree_rows(
    ids: Seq<u64>,
    parents: Seq<Option<u64>>,
    names: Seq<Seq<char>>,
    flags: Seq<NodeFlags>,
    selected: Option<u64>,
    i: int,
    depth: nat,
) -> Seq<HierView>
    decreases 65 - depth, 0nat,
{
    if depth > 64 {
        Seq::empty()
    } else {
        seq![row_of(ids, parents, names, flags, selected, i, depth)]
            + forest_rows(ids, parents, names, flags, selected, children_of(parents, Some(ids[i])), depth + 1)
    }
}

/// The rows of the subtrees of `cs`, in order, placed at `depth`.
pub open spec fn forest_rows(
    ids: Seq<u64>,
    parents: Seq<Option<u64>>,
    names: Seq<Seq<char>>,
    flags: Seq<NodeFlags>,
    selected: Option<u64>,
    cs: Seq<int>,
    depth: nat,
) -> Seq<HierView>
    decreases 65 - depth, cs.len() + 1,
{
    if cs.len() == 0 || depth > 65 {
        Seq::empty()
    } else {
        tree_rows(ids, parents, names, flags, selected, cs[0], depth)
            + forest_rows(ids, parents, names, flags, selected, cs.drop_first(), depth)
    }
}

/// The position of the parent of entity `x` (none for a root or a parent
/// that is not present).
pub open spec fn up_index(ids: Seq<u64>, parents: Seq<Option<u64>>, x: int) -> Option<int> {
    match parents[x] {
        Some(p) => index_of_spec(ids, p),
        None => None,
    }
}

/// The position reached from entity `x` after `k` steps up its parent chain.
pub open spec fn ancestor(ids: Seq<u64>, parents: Seq<Option<u64>>, x: int, k: nat) -> Option<int>
    decreases k,
{
    if k == 0 {
        Some(x)
    } else {
        match ancestor(ids, parents, x, (k - 1) as nat) {
            Some(y) => up_index(ids, parents, y),
            None => None,
        }
    }
}

/// The parent chain of `x` ends (reaches a root or a missing parent).
pub open spec fn grounded(ids: Seq<u64>, parents: Seq<Option<u64>>, x: int) -> bool {
    exists|k: nat| ancestor(ids, parents, x, k) is None
}

/// Walking `a` steps and then `b` steps is walking `a + b` steps.
proof fn lemma_ancestor_add(ids: Seq<u64>, parents: Seq<Option<u64>>, x: int, a: nat, b: nat)
    ensures
        ancestor(ids, parents, x, a + b) == match ancestor(ids, parents, x, a) {
            Some(y) => ancestor(ids, parents, y, b),
            None => None,
        },
    decreases b,
{
    if b > 0 {
        lemma_ancestor_add(ids, parents, x, a, (b - 1) as nat);
        assert((a + b - 1) as nat == a + (b - 1) as nat);
    }
}

/// A chain that came back to where it started never ends.
proof fn lemma_cycle_not_grounded(ids: Seq<u64>, parents: Seq<Option<u64>>, i: int, len: nat, k: nat)
    requires
        len >= 1,
        ancestor(ids, parents, i, len) == Some(i),
    ensures
        ancestor(ids, parents, i, k) is Some,
    decreases k,
{
    if k >= len {
        lemma_cycle_not_grounded(ids, parents, i, len, (k - len) as nat);
        lemma_ancestor_add(ids, parents, i, len, (k - len) as nat);
        assert(len + (k - len) as nat == k);
    } else {
        lemma_ancestor_add(ids, parents, i, k, (len - k) as nat);
        assert(k + (len - k) as nat == len);
    }
}

/// No two rows show the same entity.
pub open spec fn rows_distinct(rows: Seq<HierView>) -> bool {
    forall|a: int, b: int| 0 <= a < b < rows.len() ==> #[trigger] rows[a].id != #[trigger] rows[b].id
}

/// A grounded chain never comes back to where it started.
proof fn lemma_grounded_no_cycle(ids: Seq<u64>, parents: Seq<Option<u64>>, i: int, len: nat)
    requires
        grounded(ids, parents, i),
        len >= 1,
    ensures
        ancestor(ids, parents, i, len) != Some(i),
{
    if ancestor(ids, parents, i, len) == Some(i) {
        let k = choose|k: nat| ancestor(ids, parents, i, k) is None;
        lemma_cycle_not_grounded(ids, parents, i, len, k);
    }
}

/// The children of a grounded entity are grounded.
proof fn lemma_child_grounded(ids: Seq<u64>, parents: Seq<Option<u64>>, c: int, top: int)
    requires
        up_index(ids, parents, c) == Some(top),
        grounded(ids, parents, top),
    ensures
        grounded(ids, parents, c),
{
    let k = choose|k: nat| ancestor(ids, parents, top, k) is None;
    lemma_ancestor_add(ids, parents, c, 1, k);
    assert(ancestor(ids, parents, c, 0) == Some(c));
    assert(ancestor(ids, parents, c, 1) == Some(top));
    assert(ancestor(ids, parents, c, 1 + k) is None);
}

/// Joining two row lists without a common entity keeps rows distinct.
proof fn lemma_rows_distinct_concat(a: Seq<HierView>, b: Seq<HierView>)
    requires
        rows_distinct(a),
        rows_distinct(b),
        forall|x: int, y: int| 0 <= x < a.len() && 0 <= y < b.len() ==> #[trigger] a[x].id != #[trigger] b[y].id,
    ensures
        rows_distinct(a + b),
{
    let r = a + b;
    assert forall|x: int, y: int| 0 <= x < y < r.len() implies #[trigger] r[x].id != #[trigger] r[y].id by {
        if y < a.len() {
            assert(r[x] == a[x] && r[y] == a[y]);
        } else if x >= a.len() {
            assert(r[x] == b[x - a.len()] && r[y] == b[y - a.len()]);
        } else {
            assert(r[x] == a[x] && r[y] == b[y - a.len()]);
        }
    }
}

/// Some entity with id `id` has a parent chain that reaches `c`.
pub open spec fn reaches(ids: Seq<u64>, parents: Seq<Option<u64>>, id: u64, c: int) -> bool {
    exists|j: int, m: nat| #![trigger ancestor(ids, parents, j, m)]
        0 <= j < ids.len() && ids[j] == id && ancestor(ids, parents, j, m) == Some(c)
}

/// Some entity with id `id` has a parent chain that reaches one of `cs`.
pub open spec fn reaches_one_of(ids: Seq<u64>, parents: Seq<Option<u64>>, id: u64, cs: Seq<int>) -> bool {
    exists|c: int| #![trigger cs.contains(c)] cs.contains(c) && reaches(ids, parents, id, c)
}

/// Every row of the subtree of `i` shows an entity whose parent chain
/// reaches `i`.
proof fn lemma_tree_members(
    ids: Seq<u64>,
    parents: Seq<Option<u64>>,
    names: Seq<Seq<char>>,
    flags: Seq<NodeFlags>,
    selected: Option<u64>,
    i: int,
    depth: nat,
)
    requires
        increasing(ids),
        parents.len() == ids.len(),
        0 <= i < ids.len(),
    ensures
        forall|k: int| 0 <= k < tree_rows(ids, parents, names, flags, selected, i, depth).len() ==>
            reaches(ids, parents, (#[trigger] tree_rows(ids, parents, names, flags, selected, i, depth)[k]).id, i),
    decreases 65 - depth, 0nat,
{
    if depth <= 64 {
        let cs = children_of(parents, Some(ids[i]));
        lemma_children_upto(parents, Some(ids[i]), parents.len() as int);
        lemma_forest_members(ids, parents, names, flags, selected, cs, depth + 1);
        lemma_index_of_unique(ids, ids[i], i);
        let head = row_of(ids, parents, names, flags, selected, i, depth);
        let f = forest_rows(ids, parents, names, flags, selected, cs, depth + 1);
        let t = tree_rows(ids, parents, names, flags, selected, i, depth);
        assert(t == seq![head] + f);
        assert forall|k: int| 0 <= k < t.len() implies reaches(ids, parents, (#[trigger] t[k]).id, i) by {
            if k == 0 {
                assert(ancestor(ids, parents, i, 0) == Some(i));
            } else {
                assert(t[k] == f[k - 1]);
                assert(reaches_one_of(ids, parents, f[k - 1].id, cs));
                let c = choose|c: int| cs.contains(c) && reaches(ids, parents, f[k - 1].id, c);
                let (j, m) = choose|j: int, m: nat| 0 <= j < ids.len() && ids[j] == f[k - 1].id
                    && ancestor(ids, parents, j, m) == Some(c);
                let q = choose|q: int| 0 <= q < cs.len() && cs[q] == c;
                assert(parents[c] == Some(ids[i]));
                assert(up_index(ids, parents, c) == Some(i));
                assert(ancestor(ids, parents, j, m + 1) == Some(i));
            }
        }
    }
}

/// Every row of the forest of `cs` shows an entity whose parent chain
/// reaches one of `cs`.
proof fn lemma_forest_members(
    ids: Seq<u64>,
    parents: Seq<Option<u64>>,
    names: Seq<Seq<char>>,
    flags: Seq<NodeFlags>,
    selected: Option<u64>,
    cs: Seq<int>,
    depth: nat,
)
    requires
        increasing(ids),
        parents.len() == ids.len(),
        forall|q: int| 0 <= q < cs.len() ==> 0 <= #[trigger] cs[q] < ids.len(),
    ensures
        forall|k: int| 0 <= k < forest_rows(ids, parents, names, flags, selected, cs, depth).len() ==>
            reaches_one_of(ids, parents, (#[trigger] forest_rows(ids, parents, names, flags, selected, cs, depth)[k]).id, cs),
    decreases 65 - depth, cs.len() + 1,
{
    if cs.len() > 0 && depth <= 65 {
        let c0 = cs[0];
        let rest = cs.drop_first();
        lemma_tree_members(ids, parents, names, flags, selected, c0, depth);
        lemma_forest_members(ids, parents, names, flags, selected, rest, depth);
        let t = tree_rows(ids, parents, names, flags, selected, c0, depth);
        let g = forest_rows(ids, parents, names, flags, selected, rest, depth);
        let f = forest_rows(ids, parents, names, flags, selected, cs, depth);
        assert(f == t + g);
        assert forall|k: int| 0 <= k < f.len() implies reaches_one_of(ids, parents, (#[trigger] f[k]).id, cs) by {
            if k < t.len() {
                assert(f[k] == t[k]);
                assert(reaches(ids, parents, t[k].id, c0));
                assert(cs.contains(c0)) by {
                    assert(cs[0] == c0);
                }
            } else {
                assert(f[k] == g[k - t.len()]);
                assert(reaches_one_of(ids, parents, g[k - t.len()].id, rest));
                let c = choose|c: int| rest.contains(c) && reaches(ids, parents, g[k - t.len()].id, c);
                let q = choose|q: int| 0 <= q < rest.len() && rest[q] == c;
                assert(cs[q + 1] == c);
                assert(cs.contains(c));
            }
        }
    }
}

/// Entities sharing an id are the same entity.
proof fn lemma_same_id(ids: Seq<u64>, a: int, b: int)
    requires
        increasing(ids),
        0 <= a < ids.len(),
        0 <= b < ids.len(),
        ids[a] == ids[b],
    ensures
        a == b,
{
    if a < b {
        assert(ids[a] < ids[b]);
    } else if b < a {
        assert(ids[b] < ids[a]);
    }
}

/// The subtree of a grounded entity shows each entity at most once.
proof fn lemma_tree_distinct(
    ids: Seq<u64>,
    parents: Seq<Option<u64>>,
    names: Seq<Seq<char>>,
    flags: Seq<NodeFlags>,
    selected: Option<u64>,
    i: int,
    depth: nat,
)
    requires
        increasing(ids),
        parents.len() == ids.len(),
        0 <= i < ids.len(),
        grounded(ids, parents, i),
    ensures
        rows_distinct(tree_rows(ids, parents, names, flags, selected, i, depth)),
    decreases 65 - depth, 0nat,
{
    if depth <= 64 {
        let cs = children_of(parents, Some(ids[i]));
        lemma_children_upto(parents, Some(ids[i]), parents.len() as int);
        lemma_forest_distinct(ids, parents, names, flags, selected, cs, depth + 1, Some(ids[i]), i);
        lemma_forest_members(ids, parents, names, flags, selected, cs, depth + 1);
        lemma_index_of_unique(ids, ids[i], i);
        let head = seq![row_of(ids, parents, names, flags, selected, i, depth)];
        let f = forest_rows(ids, parents, names, flags, selected, cs, depth + 1);
        assert(tree_rows(ids, parents, names, flags, selected, i, depth) == head + f);
        assert forall|x: int, y: int| 0 <= x < head.len() && 0 <= y < f.len() implies #[trigger] head[x].id != #[trigger] f[y].id by {
            assert(reaches_one_of(ids, parents, f[y].id, cs));
            let c = choose|c: int| cs.contains(c) && reaches(ids, parents, f[y].id, c);
            let (j, m) = choose|j: int, m: nat| 0 <= j < ids.len() && ids[j] == f[y].id
                && ancestor(ids, parents, j, m) == Some(c);
            let q = choose|q: int| 0 <= q < cs.len() && cs[q] == c;
            assert(up_index(ids, parents, c) == Some(i));
            assert(ancestor(ids, parents, j, m + 1) == Some(i));
            if head[x].id == f[y].id {
                lemma_same_id(ids, i, j);
                lemma_grounded_no_cycle(ids, parents, i, m + 1);
            }
        }
        lemma_rows_distinct_concat(head, f);
    }
}

/// The subtrees of distinct entities sharing the parent link `target` (a
/// grounded entity `top`, or none for the roots) show each entity at most
/// once.
proof fn lemma_forest_distinct(
    ids: Seq<u64>,
    parents: Seq<Option<u64>>,
    names: Seq<Seq<char>>,
    flags: Seq<NodeFlags>,
    selected: Option<u64>,
    cs: Seq<int>,
    depth: nat,
    target: Option<u64>,
    top: int,
)
    requires
        increasing(ids),
        parents.len() == ids.len(),
        forall|q: int| 0 <= q < cs.len() ==> 0 <= #[trigger] cs[q] < ids.len() && parents[cs[q]] == target,
        forall|a: int, b: int| 0 <= a < b < cs.len() ==> #[trigger] cs[a] < #[trigger] cs[b],
        target is Some ==> 0 <= top < ids.len() && target == Some(ids[top]) && grounded(ids, parents, top),
    ensures
        rows_distinct(forest_rows(ids, parents, names, flags, selected, cs, depth)),
    decreases 65 - depth, cs.len() + 1,
{
    if cs.len() > 0 && depth <= 65 {
        let c0 = cs[0];
        let rest = cs.drop_first();
        if target is Some {
            lemma_index_of_unique(ids, ids[top], top);
        }
        // each listed entity is grounded
        assert(up_index(ids, parents, c0) == if target is Some { Some(top) } else { None::<int> });
        if target is Some {
            lemma_child_grounded(ids, parents, c0, top);
        } else {
            assert(ancestor(ids, parents, c0, 0) == Some(c0));
            assert(ancestor(ids, parents, c0, 1) is None);
        }
        lemma_tree_distinct(ids, parents, names, flags, selected, c0, depth);
        assert forall|a: int, b: int| 0 <= a < b < rest.len() implies #[trigger] rest[a] < #[trigger] rest[b] by {
            assert(rest[a] == cs[a + 1] && rest[b] == cs[b + 1]);
        }
        lemma_forest_distinct(ids, parents, names, flags, selected, rest, depth, target, top);
        lemma_tree_members(ids, parents, names, flags, selected, c0, depth);
        lemma_forest_members(ids, parents, names, flags, selected, rest, depth);
        let t = tree_rows(ids, parents, names, flags, selected, c0, depth);
        let g = forest_rows(ids, parents, names, flags, selected, rest, depth);
        assert(forest_rows(ids, parents, names, flags, selected, cs, depth) == t + g);
        assert forall|x: int, y: int| 0 <= x < t.len() && 0 <= y < g.len() implies #[trigger] t[x].id != #[trigger] g[y].id by {
            if t[x].id == g[y].id {
                assert(reaches(ids, parents, t[x].id, c0));
                let (j1, m1) = choose|j: int, m: nat| 0 <= j < ids.len() && ids[j] == t[x].id
                    && ancestor(ids, parents, j, m) == Some(c0);
                assert(reaches_one_of(ids, parents, g[y].id, rest));
                let c2 = choose|c: int| rest.contains(c) && reaches(ids, parents, g[y].id, c);
                let (j2, m2) = choose|j: int, m: nat| 0 <= j < ids.len() && ids[j] == g[y].id
                    && ancestor(ids, parents, j, m) == Some(c2);
                lemma_same_id(ids, j1, j2);
                let q = choose|q: int| 0 <= q < rest.len() && rest[q] == c2;
                assert(cs[q + 1] == c2);
                assert(cs[0] < cs[q + 1]);
                assert(up_index(ids, parents, c2) == if target is Some { Some(top) } else { None::<int> });
                if m1 < m2 {
                    lemma_ancestor_add(ids, parents, j1, m1 + 1, (m2 - m1 - 1) as nat);
                    assert((m1 + 1) as nat + (m2 - m1 - 1) as nat == m2);
                    if target is Some {
                        assert(ancestor(ids, parents, top, (m2 - m1 - 1) as nat) == Some(c2));
                        lemma_ancestor_add(ids, parents, top, (m2 - m1 - 1) as nat, 1);
                        assert(ancestor(ids, parents, c2, 0) == Some(c2));
                        assert(ancestor(ids, parents, c2, 1) == Some(top));
                        lemma_grounded_no_cycle(ids, parents, top, (m2 - m1) as nat);
                    }
                } else if m2 < m1 {
                    lemma_ancestor_add(ids, parents, j1, m2 + 1, (m1 - m2 - 1) as nat);
                    assert((m2 + 1) as nat + (m1 - m2 - 1) as nat == m1);
                    if target is Some {
                        assert(ancestor(ids, parents, top, (m1 - m2 - 1) as nat) == Some(c0));
                        lemma_ancestor_add(ids, parents, top, (m1 - m2 - 1) as nat, 1);
                        assert(ancestor(ids, parents, c0, 0) == Some(c0));
                        assert(ancestor(ids, parents, c0, 1) == Some(top));
                        lemma_grounded_no_cycle(ids, parents, top, (m1 - m2) as nat);
                    }
                }
            }
        }
        lemma_rows_distinct_concat(t, g);
    }
}

/// Row `r` shows an entity of the document with that entity's own name,
/// icon, visibility and lock, and is marked selected exactly when its id is
/// the selection.
pub open spec fn row_carries_flags(
    ids: Seq<u64>,
    names: Seq<Seq<char>>,
    flags: Seq<NodeFlags>,
    selected: Option<u64>,
    r: HierView,
) -> bool {
    exists|j: int| #![trigger ids[j]]
        0 <= j < ids.len() && ids[j] == r.id && r.name == names[j] && r.icon == flags[j].icon
            && r.visible == flags[j].visible && r.locked == flags[j].locked && r.selected == (selected == Some(r.id))
}

proof fn lemma_tree_flags(
    ids: Seq<u64>,
    parents: Seq<Option<u64>>,
    names: Seq<Seq<char>>,
    flags: Seq<NodeFlags>,
    selected: Option<u64>,
    i: int,
    depth: nat,
)
    requires
        parents.len() == ids.len(),
        0 <= i < ids.len(),
    ensures
        forall|k: int| 0 <= k < tree_rows(ids, parents, names, flags, selected, i, depth).len() ==>
            row_carries_flags(ids, names, flags, selected, #[trigger] tree_rows(ids, parents, names, flags, selected, i, depth)[k]),
    decreases 65 - depth, 0nat,
{
    if depth <= 64 {
        let cs = children_of(parents, Some(ids[i]));
        lemma_children_upto(parents, Some(ids[i]), parents.len() as int);
        lemma_forest_flags(ids, parents, names, flags, selected, cs, depth + 1);
        let head = row_of(ids, parents, names, flags, selected, i, depth);
        let f = forest_rows(ids, parents, names, flags, selected, cs, depth + 1);
        let t = tree_rows(ids, parents, names, flags, selected, i, depth);
        assert(t == seq![head] + f);
        assert forall|k: int| 0 <= k < t.len() implies row_carries_flags(ids, names, flags, selected, #[trigger] t[k]) by {
            if k == 0 {
                assert(t[0] == head);
                assert(ids[i] == head.id);
            } else {
                assert(t[k] == f[k - 1]);
            }
        }
    }
}

proof fn lemma_forest_flags(
    ids: Seq<u64>,
    parents: Seq<Option<u64>>,
    names: Seq<Seq<char>>,
    flags: Seq<NodeFlags>,
    selected: Option<u64>,
    cs: Seq<int>,
    depth: nat,
)
    requires
        parents.len() == ids.len(),
        forall|q: int| 0 <= q < cs.len() ==> 0 <= #[trigger] cs[q] < ids.len(),
    ensures
        forall|k: int| 0 <= k < forest_rows(ids, parents, names, flags, selected, cs, depth).len() ==>
            row_carries_flags(ids, names, flags, selected, #[trigger] forest_rows(ids, parents, names, flags, selected, cs, depth)[k]),
    decreases 65 - depth, cs.len() + 1,
{
    if cs.len() > 0 && depth <= 65 {
        let rest = cs.drop_first();
        lemma_tree_flags(ids, parents, names, flags, selected, cs[0], depth);
        lemma_forest_flags(ids, parents, names, flags, selected, rest, depth);
        let t = tree_rows(ids, parents, names, flags, selected, cs[0], depth);
        let g = forest_rows(ids, parents, names, flags, selected, rest, depth);
        let f = forest_rows(ids, parents, names, flags, selected, cs, depth);
        assert(f == t + g);
        assert forall|k: int| 0 <= k < f.len() implies row_carries_flags(ids, names, flags, selected, #[trigger] f[k]) by {
            if k < t.len() {
                assert(f[k] == t[k]);
            } else {
                assert(f[k] == g[k - t.len()]);
            }
        }
    }
}

/// Every row of the hierarchy panel shows one entity of the document with
/// that entity's own name, icon, visibility flag and lock flag as given,
/// and is marked selected exactly when it is the selected entity.
pub proof fn lemma_hierarchy_rows_carry_flags(
    ids: Seq<u64>,
    parents: Seq<Option<u64>>,
    names: Seq<Seq<char>>,
    flags: Seq<NodeFlags>,
    selected: Option<u64>,
)
    requires
        parents.len() == ids.len(),
    ensures
        forall|k: int| 0 <= k < forest_rows(ids, parents, names, flags, selected, children_of(parents, None), 0).len() ==>
            row_carries_flags(ids, names, flags, selected,
                #[trigger] forest_rows(ids, parents, names, flags, selected, children_of(parents, None), 0)[k]),
{
    lemma_children_upto(parents, None, parents.len() as int);
    lemma_forest_flags(ids, parents, names, flags, selected, children_of(parents, None), 0);
}

/// The hierarchy panel shows each entity at most once: no two rows of the
/// flattened hierarchy carry the same id (entities caught in a parent cycle
/// are not reachable from a root and do not show at all).
pub proof fn lemma_hierarchy_rows_distinct(
    ids: Seq<u64>,
    parents: Seq<Option<u64>>,
    names: Seq<Seq<char>>,
    flags: Seq<NodeFlags>,
    selected: Option<u64>,
)
    requires
        increasing(ids),
        parents.len() == ids.len(),
    ensures
        rows_distinct(forest_rows(ids, parents, names, flags, selected, children_of(parents, None), 0)),
{
    lemma_children_upto(parents, None, parents.len() as int);
    lemma_forest_distinct(ids, parents, names, flags, selected, children_of(parents, None), 0, None, 0);
}


/// The parent chain of entity `j` leads to the id `id`: some entity on it
/// (`j` itself included) has `id` as its parent link.
pub open spec fn leads_to(ids: Seq<u64>, parents: Seq<Option<u64>>, j: int, id: u64) -> bool {
    exists|m: nat, y: int| #![trigger ancestor(ids, parents, j, m), parents[y]]
        ancestor(ids, parents, j, m) == Some(y) && parents[y] == Some(id)
}

/// Every descendant found below `id` has a parent chain leading to `id`.
proof fn lemma_descendants_lead(ids: Seq<u64>, parents: Seq<Option<u64>>, id: u64, fuel: nat)
    requires
        increasing(ids),
        parents.len() == ids.len(),
    ensures
        forall|k: int| 0 <= k < descendants_spec(ids, parents, id, fuel).len() ==>
            leads_to(ids, parents, #[trigger] descendants_spec(ids, parents, id, fuel)[k], id),
    decreases fuel, 0nat,
{
    if fuel > 0 {
        let cs = children_of(parents, Some(id));
        lemma_children_upto(parents, Some(id), parents.len() as int);
        lemma_list_descendants_lead(ids, parents, cs, (fuel - 1) as nat, id);
        assert(descendants_spec(ids, parents, id, fuel) == descendants_of_list(ids, parents, cs, (fuel - 1) as nat));
    }
}

/// Every entity found in the subtrees of `cs`, all of them children of
/// `id`, has a parent chain leading to `id`.
proof fn lemma_list_descendants_lead(ids: Seq<u64>, parents: Seq<Option<u64>>, cs: Seq<int>, fuel: nat, id: u64)
    requires
        increasing(ids),
        parents.len() == ids.len(),
        forall|q: int| 0 <= q < cs.len() ==> 0 <= #[trigger] cs[q] < ids.len() && parents[cs[q]] == Some(id),
    ensures
        forall|k: int| 0 <= k < descendants_of_list(ids, parents, cs, fuel).len() ==>
            leads_to(ids, parents, #[trigger] descendants_of_list(ids, parents, cs, fuel)[k], id),
    decreases fuel, cs.len() + 1,
{
    if cs.len() > 0 {
        let c = cs.last();
        let below = descendants_spec(ids, parents, ids[c], fuel);
        let others = descendants_of_list(ids, parents, cs.drop_last(), fuel);
        lemma_descendants_lead(ids, parents, ids[c], fuel);
        lemma_list_descendants_lead(ids, parents, cs.drop_last(), fuel, id);
        lemma_index_of_unique(ids, ids[c], c);
        let r = descendants_of_list(ids, parents, cs, fuel);
        assert(r == seq![c] + below + others);
        assert forall|k: int| 0 <= k < r.len() implies leads_to(ids, parents, #[trigger] r[k], id) by {
            if k == 0 {
                assert(r[0] == c);
                assert(ancestor(ids, parents, c, 0) == Some(c));
                assert(parents[c] == Some(id));
            } else if k < 1 + below.len() {
                assert(r[k] == below[k - 1]);
                let j = below[k - 1];
                assert(leads_to(ids, parents, j, ids[c]));
                let (m, y) = choose|m: nat, y: int| ancestor(ids, parents, j, m) == Some(y) && parents[y] == Some(ids[c]);
                assert(up_index(ids, parents, y) == Some(c));
                assert(ancestor(ids, parents, j, m + 1) == Some(c));
            } else {
                assert(r[k] == others[k - 1 - below.len()]);
            }
        }
    }
}

/// Deleting entity `id` removes nothing but `id` itself and entities whose
/// parent chain leads to it.
pub proof fn lemma_delete_only_subtree(ids: Seq<u64>, parents: Seq<Option<u64>>, id: u64, j: int)
    requires
        increasing(ids),
        parents.len() == ids.len(),
        subtree_spec(ids, parents, id).contains(j),
    ensures
        (0 <= j < ids.len() && ids[j] == id) || leads_to(ids, parents, j, id),
{
    lemma_descendants_lead(ids, parents, id, ids.len());
    let d = descendants_spec(ids, parents, id, ids.len());
    let sub = subtree_spec(ids, parents, id);
    let k = choose|k: int| 0 <= k < sub.len() && sub[k] == j;
    match index_of_spec(ids, id) {
        Some(i) => {
            if k > 0 {
                assert(sub[k] == d[k - 1]);
            }
        },
        None => {
            assert(sub[k] == d[k]);
        },
    }
}

/// A walk up the chain stays among the entities.
proof fn lemma_ancestor_in_range(ids: Seq<u64>, parents: Seq<Option<u64>>, x: int, k: nat)
    requires
        0 <= x < ids.len(),
    ensures
        ancestor(ids, parents, x, k) matches Some(y) ==> 0 <= y < ids.len(),
    decreases k,
{
    if k > 0 {
        lemma_ancestor_in_range(ids, parents, x, (k - 1) as nat);
    }
}

/// Once a walk up the chain ends it stays ended.
proof fn lemma_ancestor_ended(ids: Seq<u64>, parents: Seq<Option<u64>>, x: int, a: nat, b: nat)
    requires
        a <= b,
        ancestor(ids, parents, x, a) is None,
    ensures
        ancestor(ids, parents, x, b) is None,
{
    lemma_ancestor_add(ids, parents, x, a, (b - a) as nat);
    assert(a + (b - a) as nat == b);
}

/// Among more values than there are numbers below `n`, two are equal.
proof fn lemma_pigeonhole(s: Seq<int>, n: int)
    requires
        0 <= n < s.len(),
        forall|i: int| 0 <= i < s.len() ==> 0 <= #[trigger] s[i] < n,
    ensures
        exists|a: int, b: int| 0 <= a < b < s.len() && #[trigger] s[a] == #[trigger] s[b],
    decreases n,
{
    let m = s.len() - 1;
    if n == 0 {
        assert(0 <= s[0] < n);
    } else {
        let v = s[m];
        if exists|i: int| 0 <= i < m && #[trigger] s[i] == v {
            let i = choose|i: int| 0 <= i < m && #[trigger] s[i] == v;
            assert(s[i] == s[m]);
        } else {
            let g = Seq::new(m as nat, |i: int| if s[i] > v { s[i] - 1 } else { s[i] });
            assert forall|i: int| 0 <= i < g.len() implies 0 <= #[trigger] g[i] < n - 1 by {
                assert(s[i] != v);
                assert(0 <= s[i] < n);
            }
            lemma_pigeonhole(g, n - 1);
            let (a, b) = choose|a: int, b: int| 0 <= a < b < g.len() && #[trigger] g[a] == #[trigger] g[b];
            assert(s[a] != v && s[b] != v);
            assert(s[a] == s[b]);
        }
    }
}

/// In a document whose chains all end, a chain that leads anywhere does so
/// within fewer steps than there are entities.
proof fn lemma_short_chain(ids: Seq<u64>, parents: Seq<Option<u64>>, j: int, m: nat, y: int)
    requires
        0 <= j < ids.len(),
        forall|x: int| 0 <= x < ids.len() ==> #[trigger] grounded(ids, parents, x),
        ancestor(ids, parents, j, m) == Some(y),
    ensures
        m < ids.len(),
{
    if m >= ids.len() {
        assert forall|i: nat| i <= m implies #[trigger] ancestor(ids, parents, j, i) is Some by {
            if ancestor(ids, parents, j, i) is None {
                lemma_ancestor_ended(ids, parents, j, i, m);
            }
        }
        let f = Seq::new(m + 1, |i: int| ancestor(ids, parents, j, i as nat)->0);
        assert forall|i: int| 0 <= i < f.len() implies 0 <= #[trigger] f[i] < ids.len() by {
            assert(ancestor(ids, parents, j, i as nat) is Some);
            lemma_ancestor_in_range(ids, parents, j, i as nat);
        }
        lemma_pigeonhole(f, ids.len() as int);
        let (a, b) = choose|a: int, b: int| 0 <= a < b < f.len() && #[trigger] f[a] == #[trigger] f[b];
        let x = f[a];
        assert(ancestor(ids, parents, j, a as nat) == Some(x));
        assert(ancestor(ids, parents, j, b as nat) == Some(x));
        lemma_ancestor_add(ids, parents, j, a as nat, (b - a) as nat);
        assert(a as nat + (b - a) as nat == b as nat);
        lemma_ancestor_in_range(ids, parents, j, a as nat);
        assert(grounded(ids, parents, x));
        lemma_grounded_no_cycle(ids, parents, x, (b - a) as nat);
    }
}

/// The subtrees found below a list of entities include each listed entity.
proof fn lemma_list_contains(ids: Seq<u64>, parents: Seq<Option<u64>>, cs: Seq<int>, fuel: nat, c: int)
    requires
        cs.contains(c),
    ensures
        descendants_of_list(ids, parents, cs, fuel).contains(c),
    decreases cs.len(),
{
    let r = descendants_of_list(ids, parents, cs, fuel);
    let below = descendants_spec(ids, parents, ids[cs.last()], fuel);
    let rest = descendants_of_list(ids, parents, cs.drop_last(), fuel);
    assert(r == seq![cs.last()] + below + rest);
    if cs.last() == c {
        assert(r[0] == c);
    } else {
        let q = choose|q: int| 0 <= q < cs.len() && cs[q] == c;
        assert(cs.drop_last()[q] == c);
        lemma_list_contains(ids, parents, cs.drop_last(), fuel, c);
        let k = choose|k: int| 0 <= k < rest.len() && rest[k] == c;
        assert(r[1 + below.len() + k] == c);
    }
}

/// The subtrees found below a list of entities include what is found below
/// each listed entity.
proof fn lemma_list_contains_below(ids: Seq<u64>, parents: Seq<Option<u64>>, cs: Seq<int>, fuel: nat, c: int, j: int)
    requires
        cs.contains(c),
        descendants_spec(ids, parents, ids[c], fuel).contains(j),
    ensures
        descendants_of_list(ids, parents, cs, fuel).contains(j),
    decreases cs.len(),
{
    let r = descendants_of_list(ids, parents, cs, fuel);
    let below = descendants_spec(ids, parents, ids[cs.last()], fuel);
    let rest = descendants_of_list(ids, parents, cs.drop_last(), fuel);
    assert(r == seq![cs.last()] + below + rest);
    if cs.last() == c {
        let k = choose|k: int| 0 <= k < below.len() && below[k] == j;
        assert(r[1 + k] == j);
    } else {
        let q = choose|q: int| 0 <= q < cs.len() && cs[q] == c;
        assert(cs.drop_last()[q] == c);
        lemma_list_contains_below(ids, parents, cs.drop_last(), fuel, c, j);
        let k = choose|k: int| 0 <= k < rest.len() && rest[k] == j;
        assert(r[1 + below.len() + k] == j);
    }
}

/// An entity whose chain reaches a child of `id` within fewer steps than
/// `fuel` is found below `id`.
proof fn lemma_descendant_found(ids: Seq<u64>, parents: Seq<Option<u64>>, id: u64, fuel: nat, j: int, m: nat, y: int)
    requires
        increasing(ids),
        parents.len() == ids.len(),
        0 <= j < ids.len(),
        ancestor(ids, parents, j, m) == Some(y),
        parents[y] == Some(id),
        m < fuel,
    ensures
        descendants_spec(ids, parents, id, fuel).contains(j),
    decreases m,
{
    lemma_ancestor_in_range(ids, parents, j, m);
    let cs = children_of(parents, Some(id));
    lemma_children_upto(parents, Some(id), parents.len() as int);
    assert(cs.contains(y));
    assert(descendants_spec(ids, parents, id, fuel) == descendants_of_list(ids, parents, cs, (fuel - 1) as nat));
    if m == 0 {
        assert(y == j);
        lemma_list_contains(ids, parents, cs, (fuel - 1) as nat, y);
    } else {
        let w = ancestor(ids, parents, j, (m - 1) as nat)->0;
        lemma_ancestor_in_range(ids, parents, j, (m - 1) as nat);
        assert(up_index(ids, parents, w) == Some(y));
        let p = parents[w]->0;
        assert(index_of_spec(ids, p) == Some(y));
        assert(ids[y] == p);
        lemma_descendant_found(ids, parents, ids[y], (fuel - 1) as nat, j, (m - 1) as nat, w);
        lemma_list_contains_below(ids, parents, cs, (fuel - 1) as nat, y, j);
    }
}

/// In a document whose parent chains all end, deleting `id` removes every
/// entity whose parent chain leads to `id`.
pub proof fn lemma_delete_whole_subtree(ids: Seq<u64>, parents: Seq<Option<u64>>, id: u64, j: int)
    requires
        increasing(ids),
        parents.len() == ids.len(),
        forall|x: int| 0 <= x < ids.len() ==> #[trigger] grounded(ids, parents, x),
        0 <= j < ids.len(),
        leads_to(ids, parents, j, id),
    ensures
        subtree_spec(ids, parents, id).contains(j),
{
    let (m, y) = choose|m: nat, y: int| ancestor(ids, parents, j, m) == Some(y) && parents[y] == Some(id);
    lemma_short_chain(ids, parents, j, m, y);
    lemma_descendant_found(ids, parents, id, ids.len() as nat, j, m, y);
    let d = descendants_spec(ids, parents, id, ids.len() as nat);
    let k = choose|k: int| 0 <= k < d.len() && d[k] == j;
    match index_of_spec(ids, id) {
        Some(i) => {
            assert(subtree_spec(ids, parents, id)[k + 1] == j);
        },
        None => {
            assert(subtree_spec(ids, parents, id)[k] == j);
        },
    }
}

/// The editor's offline scene document.
pub struct OfflineScene<P> {
    payloads: Vec<P>,
    names: Vec<String>,
    ids: Vec<u64>,
    parents: Vec<Option<u64>>,
    taken: NameSet,
    next_id: u64,
    scene_path: Option<String>,
    unsynced: bool,
    mirror_dirty: bool,
}

impl<P> OfflineScene<P> {
    /// Payload per entity, in document order.
    pub closed spec fn payloads(&self) -> Seq<P> {
        self.payloads@
    }

    /// Name per entity, in document order.
    pub closed spec fn names(&self) -> Seq<Seq<char>> {
        string_views(self.names@)
    }

    /// Offline id per entity, in document order.
    pub closed spec fn ids(&self) -> Seq<u64> {
        self.ids@
    }

    /// Parent id per entity, in document order.
    pub closed spec fn parents(&self) -> Seq<Option<u64>> {
        self.parents@
    }

    /// The names considered in use when naming new entities.
    pub closed spec fn taken(&self) -> Set<Seq<char>> {
        self.taken.contents()
    }

    /// The id the next new entity receives.
    pub closed spec fn next_id(&self) -> nat {
        self.next_id as nat
    }

    /// File the document was opened from or saved to.
    pub closed spec fn path(&self) -> Option<Seq<char>> {
        match self.scene_path {
            Some(p) => Some(p@),
            None => None,
        }
    }

    /// Edits exist that the engine has never seen.
    pub closed spec fn unsynced(&self) -> bool {
        self.unsynced
    }

    /// The hierarchy/inspector mirror needs a rebuild.
    pub closed spec fn mirror_dirty(&self) -> bool {
        self.mirror_dirty
    }

    /// Number of entities.
    pub open spec fn count(&self) -> nat {
        self.ids().len()
    }

    /// The document's invariant: parallel per-entity sequences, strictly
    /// increasing ids below the next id.
    pub closed spec fn wf(&self) -> bool {
        &&& self.payloads@.len() == self.ids@.len()
        &&& self.names@.len() == self.ids@.len()
        &&& self.parents@.len() == self.ids@.len()
        &&& self.taken.wf()
        &&& increasing(self.ids@)
        &&& forall|i: int| 0 <= i < self.ids@.len() ==> #[trigger] self.ids@[i] < self.next_id
    }

    /// The invariant, seen from outside.
    pub proof fn lemma_wf(&self)
        requires
            self.wf(),
        ensures
            self.payloads().len() == self.count(),
            self.names().len() == self.count(),
            self.parents().len() == self.count(),
            increasing(self.ids()),
            forall|i: int| 0 <= i < self.count() ==> #[trigger] self.ids()[i] < self.next_id(),
    {
    }

    /// Number of entities.
    pub fn len(&self) -> (n: usize)
        requires
            self.wf(),
        ensures
            n == self.count(),
    {
        self.ids.len()
    }

    /// Id of the entity at `i`.
    pub fn id_at(&self, i: usize) -> (id: u64)
        requires
            self.wf(),
            i < self.count(),
        ensures
            id == self.ids()[i as int],
    {
        self.ids[i]
    }

    /// Parent id of the entity at `i`.
    pub fn parent_at(&self, i: usize) -> (p: Option<u64>)
        requires
            self.wf(),
            i < self.count(),
        ensures
            p == self.parents()[i as int],
    {
        self.parents[i]
    }

    /// Name of the entity at `i`.
    pub fn name_at(&self, i: usize) -> (s: &str)
        requires
            self.wf(),
            i < self.count(),
        ensures
            s@ == self.names()[i as int],
    {
        self.names[i].as_str()
    }

    /// Payload of the entity at `i`.
    pub fn payload_at(&self, i: usize) -> (p: &P)
        requires
            self.wf(),
            i < self.count(),
        ensures
            *p == self.payloads()[i as int],
    {
        &self.payloads[i]
    }

    /// Replace the payload of the entity at `i`, giving back the old one.
    pub fn replace_payload(&mut self, i: usize, p: P) -> (old_p: P)
        requires
            old(self).wf(),
            i < old(self).count(),
        ensures
            final(self).wf(),
            old_p == old(self).payloads()[i as int],
            final(self).payloads() == old(self).payloads().update(i as int, p),
            final(self).names() == old(self).names(),
            final(self).ids() == old(self).ids(),
            final(self).parents() == old(self).parents(),
            final(self).taken() == old(self).taken(),
            final(self).next_id() == old(self).next_id(),
            final(self).path() == old(self).path(),
            final(self).unsynced() == old(self).unsynced(),
            final(self).mirror_dirty() == old(self).mirror_dirty(),
    {
        let mut p = p;
        std::mem::swap(&mut self.payloads[i], &mut p);
        p
    }

    /// Position of the entity with offline id `id`.
    pub fn index_of(&self, id: u64) -> (r: Option<usize>)
        requires
            self.wf(),
        ensures
            match r {
                Some(i) => index_of_spec(self.ids(), id) == Some(i as int),
                None => index_of_spec(self.ids(), id) is None,
            },
    {
        let n = self.ids.len();
        let mut i: usize = 0;
        while i < n
            invariant
                n == self.ids@.len(),
                increasing(self.ids@),
                i <= n,
                forall|k: int| 0 <= k < i ==> self.ids@[k] != id,
            decreases n - i,
        {
            if self.ids[i] == id {
                proof {
                    lemma_index_of_unique(self.ids@, id, i as int);
                }
                return Some(i);
            }
            i = i + 1;
        }
        None
    }

    /// Indices whose parent is `target` (the roots for `None`), in document
    /// order.
    pub fn children(&self, target: Option<u64>) -> (r: Vec<usize>)
        requires
            self.wf(),
        ensures
            r@.map_values(|x: usize| x as int) == children_of(self.parents(), target),
    {
        let n = self.parents.len();
        let mut r: Vec<usize> = Vec::new();
        let mut i: usize = 0;
        while i < n
            invariant
                n == self.parents@.len(),
                i <= n,
                r@.map_values(|x: usize| x as int) == children_upto(self.parents@, target, i as int),
            decreases n - i,
        {
            let ghost before = r@;
            if self.parents[i] == target {
                r.push(i);
                assert(r@.map_values(|x: usize| x as int) =~= before.map_values(|x: usize| x as int).push(i as int));
            }
            i = i + 1;
        }
        r
    }

    /// The name a new entity called `base` would receive now.
    pub fn unique_name(&self, base: &str) -> (r: String)
        requires
            self.wf(),
        ensures
            r@ == unique_name_spec(self.taken(), base@),
    {
        self.taken.unique_name(base)
    }

    /// A scene with no entities, no file and a pending mirror rebuild.
    pub fn empty() -> (s: Self)
        ensures
            s.wf(),
            s.count() == 0,
            s.payloads() == Seq::<P>::empty(),
            s.names() == Seq::<Seq<char>>::empty(),
            s.parents() == Seq::<Option<u64>>::empty(),
            s.taken() == Set::<Seq<char>>::empty(),
            s.next_id() == FIRST_ID,
            s.path() is None,
            !s.unsynced(),
            s.mirror_dirty(),
    {
        let s = OfflineScene {
            payloads: Vec::new(),
            names: Vec::new(),
            ids: Vec::new(),
            parents: Vec::new(),
            taken: NameSet::new(),
            next_id: FIRST_ID,
            scene_path: None,
            unsynced: false,
            mirror_dirty: true,
        };
        assert(s.names() =~= Seq::<Seq<char>>::empty());
        s
    }

    /// Build the id, name-set and parent tables of a fresh document whose
    /// entities are `names` (in document order), parents given by name.
    fn rebuild(&mut self, payloads: Vec<P>, names: Vec<String>, parent_names: &Vec<Option<String>>)
        requires
            old(self).wf(),
            payloads@.len() == names@.len(),
            parent_names@.len() == names@.len(),
            names@.len() + FIRST_ID < u64::MAX,
        ensures
            final(self).wf(),
            final(self).payloads() == payloads@,
            final(self).names() == string_views(names@),
            final(self).ids() == fresh_ids(names@.len()),
            final(self).parents() == Seq::new(names@.len(), |i: int| resolve_parent(
                string_views(names@),
                match parent_names@[i] { Some(p) => Some(p@), None => None },
            )),
            final(self).taken() == name_set(string_views(names@)),
            final(self).next_id() == FIRST_ID + names@.len(),
            final(self).path() == old(self).path(),
            final(self).unsynced() == old(self).unsynced(),
            final(self).mirror_dirty() == old(self).mirror_dirty(),
    {
        let n = names.len();
        let ghost nv = string_views(names@);
        let mut ids: Vec<u64> = Vec::new();
        let mut parents: Vec<Option<u64>> = Vec::new();
        let mut taken = NameSet::new();
        let mut i: usize = 0;
        while i < n
            invariant
                n == names@.len(),
                nv == string_views(names@),
                parent_names@.len() == n,
                n + FIRST_ID < u64::MAX,
                i <= n,
                taken.wf(),
                taken.contents() == Set::new(|x: Seq<char>| nv.subrange(0, i as int).contains(x)),
                ids@ == fresh_ids(i as nat),
                parents@ == Seq::new(i as nat, |k: int| resolve_parent(
                    nv,
                    match parent_names@[k] { Some(p) => Some(p@), None => None },
                )),
            decreases n - i,
        {
            let ghost prev_taken = taken.contents();
            taken.insert(names[i].as_str());
            proof {
                assert(nv[i as int] == names@[i as int]@);
                assert(nv.subrange(0, i + 1) =~= nv.subrange(0, i as int).push(nv[i as int]));
                assert forall|x: Seq<char>| #[trigger] taken.contents().contains(x)
                    <==> nv.subrange(0, i + 1).contains(x) by {
                    let sp = nv.subrange(0, i as int);
                    let sn = nv.subrange(0, i + 1);
                    if sp.contains(x) {
                        let k = choose|k: int| 0 <= k < sp.len() && sp[k] == x;
                        assert(sn[k] == x);
                    }
                    if sn.contains(x) {
                        let k = choose|k: int| 0 <= k < sn.len() && sn[k] == x;
                        if k < i {
                            assert(sp[k] == x);
                        }
                    }
                    if x == nv[i as int] {
                        assert(sn[i as int] == x);
                    }
                }
                assert(taken.contents() =~= Set::new(|x: Seq<char>| nv.subrange(0, i + 1).contains(x)));
            }
            ids.push(FIRST_ID + i as u64);
            proof {
                assert(ids@ =~= fresh_ids((i + 1) as nat));
            }
            let parent = match &parent_names[i] {
                None => None,
                Some(pname) => match find_last_named(&names, pname.as_str()) {
                    Some(j) => Some(FIRST_ID + j as u64),
                    None => None,
                },
            };
            parents.push(parent);
            proof {
                assert(parents@ =~= Seq::new((i + 1) as nat, |k: int| resolve_parent(
                    nv,
                    match parent_names@[k] { Some(p) => Some(p@), None => None },
                )));
            }
            i = i + 1;
        }
        self.payloads = payloads;
        self.names = names;
        self.ids = ids;
        self.parents = parents;
        self.taken = taken;
        self.next_id = FIRST_ID + n as u64;
        proof {
            assert(nv.subrange(0, n as int) =~= nv);
            assert(self.taken() =~= name_set(string_views(self.names@)));
        }
    }

    /// Replace the whole document with a freshly parsed one (open path):
    /// ids are positional from [`FIRST_ID`], parent names resolve to the last
    /// entity of that name, the name set is rebuilt, and the document counts
    /// as matching `path`.
    pub fn adopt(&mut self, payloads: Vec<P>, names: Vec<String>, parent_names: Vec<Option<String>>, path: Option<String>)
        requires
            old(self).wf(),
            payloads@.len() == names@.len(),
            parent_names@.len() == names@.len(),
            names@.len() + FIRST_ID < u64::MAX,
        ensures
            final(self).wf(),
            final(self).payloads() == payloads@,
            final(self).names() == string_views(names@),
            final(self).ids() == fresh_ids(names@.len()),
            final(self).parents() == Seq::new(names@.len(), |i: int| resolve_parent(
                string_views(names@),
                match parent_names@[i] { Some(p) => Some(p@), None => None },
            )),
            final(self).taken() == name_set(string_views(names@)),
            final(self).next_id() == FIRST_ID + names@.len(),
            final(self).path() == match path { Some(p) => Some(p@), None => None::<Seq<char>> },
            !final(self).unsynced(),
            final(self).mirror_dirty(),
    {
        self.rebuild(payloads, names, &parent_names);
        self.scene_path = path;
        self.unsynced = false;
        self.mirror_dirty = true;
    }

    /// Replace the whole document with top-level entities only (the default
    /// rig): fresh ids, no parents, no file; the edit flag is kept.
    pub fn reset_to_roots(&mut self, payloads: Vec<P>, names: Vec<String>)
        requires
            old(self).wf(),
            payloads@.len() == names@.len(),
            names@.len() + FIRST_ID < u64::MAX,
        ensures
            final(self).wf(),
            final(self).payloads() == payloads@,
            final(self).names() == string_views(names@),
            final(self).ids() == fresh_ids(names@.len()),
            final(self).parents() == Seq::new(names@.len(), |i: int| None::<u64>),
            final(self).taken() == name_set(string_views(names@)),
            final(self).next_id() == FIRST_ID + names@.len(),
            final(self).path() is None,
            final(self).unsynced() == old(self).unsynced(),
            final(self).mirror_dirty(),
    {
        let n = names.len();
        let mut none_parents: Vec<Option<String>> = Vec::new();
        let mut i: usize = 0;
        while i < n
            invariant
                i <= n,
                none_parents@.len() == i,
                forall|k: int| 0 <= k < i ==> none_parents@[k] is None,
            decreases n - i,
        {
            none_parents.push(None);
            i = i + 1;
        }
        self.rebuild(payloads, names, &none_parents);
        proof {
            assert(self.parents() =~= Seq::new(n as nat, |i: int| None::<u64>));
        }
        self.scene_path = None;
        self.mirror_dirty = true;
    }

    /// Spawn a new entity named after `base` (made unique) under `parent`;
    /// a parent that is not in the document makes it a root. Returns the new
    /// entity's id.
    pub fn spawn(&mut self, base: &str, parent: Option<u64>, payload: P) -> (id: u64)
        requires
            old(self).wf(),
            old(self).next_id() < u64::MAX,
        ensures
            final(self).wf(),
            spawned(*old(self), base@, parent, payload, *final(self), id),
    {
        let name = self.taken.unique_name(base);
        let parent = match parent {
            Some(p) => match self.index_of(p) {
                Some(_) => Some(p),
                None => None,
            },
            None => None,
        };
        let id = self.next_id;
        self.taken.insert(name.as_str());
        let ghost nv = name@;
        self.payloads.push(payload);
        self.names.push(name);
        self.ids.push(id);
        self.parents.push(parent);
        self.next_id = self.next_id + 1;
        self.unsynced = true;
        proof {
            assert(string_views(self.names@) =~= string_views(old(self).names@).push(nv));
            assert forall|i: int, j: int| 0 <= i < j < self.ids@.len() implies self.ids@[i] < self.ids@[j] by {
                if j == self.ids@.len() - 1 {
                    assert(old(self).ids@[i] < old(self).next_id);
                }
            }
        }
        id
    }

    /// Rename the entity `id`; the new name is made unique against the names
    /// in use (its current name included). Returns whether the entity exists;
    /// nothing changes when it does not.
    pub fn rename(&mut self, id: u64, name: &str) -> (found: bool)
        requires
            old(self).wf(),
        ensures
            final(self).wf(),
            found == index_of_spec(old(self).ids(), id) is Some,
            !found ==> same_document(*old(self), *final(self)) && final(self).unsynced() == old(self).unsynced(),
            found ==> {
                let i = index_of_spec(old(self).ids(), id)->0;
                let new_name = unique_name_spec(old(self).taken(), name@);
                &&& final(self).names() == old(self).names().update(i, new_name)
                &&& final(self).taken() == old(self).taken().remove(old(self).names()[i]).insert(new_name)
                &&& final(self).payloads() == old(self).payloads()
                &&& final(self).ids() == old(self).ids()
                &&& final(self).parents() == old(self).parents()
                &&& final(self).next_id() == old(self).next_id()
                &&& final(self).unsynced()
            },
            final(self).path() == old(self).path(),
            final(self).mirror_dirty() == old(self).mirror_dirty(),
    {
        let i = match self.index_of(id) {
            Some(i) => i,
            None => return false,
        };
        let new_name = self.taken.unique_name(name);
        self.taken.remove(self.names[i].as_str());
        self.taken.insert(new_name.as_str());
        let ghost nv = new_name@;
        self.names.set(i, new_name);
        self.unsynced = true;
        proof {
            assert(string_views(self.names@) =~= string_views(old(self).names@).update(i as int, nv));
        }
        true
    }

    /// Append the descendants of `id` (see [`descendants_spec`]) to `out`.
    fn push_descendants(&self, id: u64, fuel: usize, out: &mut Vec<usize>)
        requires
            self.wf(),
        ensures
            final(out)@.map_values(|x: usize| x as int)
                == old(out)@.map_values(|x: usize| x as int) + descendants_spec(self.ids(), self.parents(), id, fuel as nat),
        decreases fuel,
    {
        if fuel == 0 {
            assert(out@.map_values(|x: usize| x as int) =~= old(out)@.map_values(|x: usize| x as int)
                + descendants_spec(self.ids(), self.parents(), id, fuel as nat));
            return;
        }
        let cs = self.children(Some(id));
        let ghost csi = cs@.map_values(|x: usize| x as int);
        proof {
            lemma_children_upto(self.parents@, Some(id), self.parents@.len() as int);
        }
        let mut k: usize = cs.len();
        assert(csi.subrange(0, k as int) =~= csi);
        while k > 0
            invariant
                self.wf(),
                fuel > 0,
                k <= cs@.len(),
                csi == cs@.map_values(|x: usize| x as int),
                csi == children_of(self.parents(), Some(id)),
                forall|j: int| 0 <= j < csi.len() ==> 0 <= #[trigger] csi[j] < self.ids@.len(),
                out@.map_values(|x: usize| x as int) + descendants_of_list(self.ids(), self.parents(), csi.subrange(0, k as int), (fuel - 1) as nat)
                    == old(out)@.map_values(|x: usize| x as int) + descendants_of_list(self.ids(), self.parents(), csi, (fuel - 1) as nat),
            decreases k,
        {
            let c = cs[k - 1];
            let ghost before = out@.map_values(|x: usize| x as int);
            let ghost pre = csi.subrange(0, k as int);
            assert(pre.last() == c as int);
            assert(pre.drop_last() =~= csi.subrange(0, k - 1));
            out.push(c);
            assert(out@.map_values(|x: usize| x as int) =~= before.push(c as int));
            let ghost mid = out@.map_values(|x: usize| x as int);
            self.push_descendants(self.ids[c], fuel - 1, out);
            k = k - 1;
            proof {
                let f = (fuel - 1) as nat;
                assert(descendants_of_list(self.ids(), self.parents(), pre, f)
                    == seq![c as int] + descendants_spec(self.ids(), self.parents(), self.ids@[c as int], f)
                        + descendants_of_list(self.ids(), self.parents(), csi.subrange(0, k as int), f));
                assert(before + descendants_of_list(self.ids(), self.parents(), pre, f)
                    =~= out@.map_values(|x: usize| x as int) + descendants_of_list(self.ids(), self.parents(), csi.subrange(0, k as int), f));
            }
        }
        assert(csi.subrange(0, 0) =~= Seq::<int>::empty());
        assert(out@.map_values(|x: usize| x as int) =~= old(out)@.map_values(|x: usize| x as int)
            + descendants_spec(self.ids(), self.parents(), id, fuel as nat));
    }

    /// The entity `id` (when present) followed by its descendants.
    pub fn subtree_indices(&self, id: u64) -> (r: Vec<usize>)
        requires
            self.wf(),
        ensures
            r@.map_values(|x: usize| x as int) == subtree_spec(self.ids(), self.parents(), id),
            forall|k: int| 0 <= k < r@.len() ==> #[trigger] r@[k] < self.count(),
    {
        let mut out: Vec<usize> = Vec::new();
        match self.index_of(id) {
            Some(i) => {
                out.push(i);
            },
            None => {},
        }
        let ghost start = out@.map_values(|x: usize| x as int);
        self.push_descendants(id, self.ids.len(), &mut out);
        proof {
            lemma_descendants_in_range(self.ids(), self.parents(), id, self.ids@.len() as nat);
            let d = descendants_spec(self.ids(), self.parents(), id, self.ids@.len() as nat);
            assert(out@.map_values(|x: usize| x as int) =~= subtree_spec(self.ids(), self.parents(), id));
            assert forall|k: int| 0 <= k < out@.len() implies #[trigger] out@[k] < self.count() by {
                assert(out@.map_values(|x: usize| x as int)[k] == out@[k] as int);
                if k >= start.len() {
                    assert(d[k - start.len()] == out@[k] as int);
                }
            }
        }
        out
    }

    /// Delete the entity `id` together with all its descendants. Their names
    /// leave the name set; entities whose parent vanished become roots. The
    /// document counts as edited even when `id` is not present.
    #[verifier::rlimit(30)]
    pub fn delete(&mut self, id: u64)
        requires
            old(self).wf(),
        ensures
            final(self).wf(),
            deleted(*old(self), id, *final(self)),
            !final(self).ids().contains(id),
            forall|j: int| 0 <= j < final(self).count() && (#[trigger] final(self).parents()[j]) is Some
                ==> final(self).ids().contains(final(self).parents()[j]->0)
                    || final(self).parents()[j]->0 >= old(self).next_id(),
            forall|j: int| 0 <= j < old(self).count()
                && subtree_spec(old(self).ids(), old(self).parents(), id).contains(j)
                ==> !final(self).ids().contains(#[trigger] old(self).ids()[j]),
    {
        let sub = self.subtree_indices(id);
        let ghost subi = sub@.map_values(|x: usize| x as int);
        let ghost doomed = Set::new(|i: int| subi.contains(i));
        let ghost names0 = self.names();
        // names of the doomed entities leave the name set
        let mut k: usize = 0;
        while k < sub.len()
            invariant
                self.wf(),
                self.names() == names0,
                self.ids@ == old(self).ids@,
                self.parents@ == old(self).parents@,
                self.payloads@ == old(self).payloads@,
                self.next_id == old(self).next_id,
                self.scene_path == old(self).scene_path,
                self.unsynced == old(self).unsynced,
                self.mirror_dirty == old(self).mirror_dirty,
                subi == sub@.map_values(|x: usize| x as int),
                forall|j: int| 0 <= j < sub@.len() ==> #[trigger] sub@[j] < self.count(),
                k <= sub@.len(),
                self.taken() == old(self).taken().difference(names_at(names0, subi.subrange(0, k as int))),
            decreases sub@.len() - k,
        {
            let i = sub[k];
            self.taken.remove(self.names[i].as_str());
            k = k + 1;
            proof {
                assert(names0[i as int] == self.names@[i as int]@);
                assert forall|x: Seq<char>| #[trigger] names_at(names0, subi.subrange(0, k as int)).contains(x)
                    <==> (names_at(names0, subi.subrange(0, k - 1)).contains(x) || x == names0[i as int]) by {
                    let a = subi.subrange(0, k as int);
                    let b = subi.subrange(0, k - 1);
                    if names_at(names0, a).contains(x) {
                        let j = choose|j: int| 0 <= j < a.len() && names0[a[j]] == x;
                        if j < k - 1 {
                            assert(b[j] == a[j]);
                        } else {
                            assert(a[j] == i as int);
                        }
                    }
                    if names_at(names0, b).contains(x) {
                        let j = choose|j: int| 0 <= j < b.len() && names0[b[j]] == x;
                        assert(a[j] == b[j]);
                    }
                    if x == names0[i as int] {
                        assert(a[k - 1] == i as int);
                    }
                }
                assert(self.taken() =~= old(self).taken().difference(names_at(names0, subi.subrange(0, k as int))));
            }
        }
        assert(subi.subrange(0, sub@.len() as int) =~= subi);
        // remove the doomed entities, last position first
        let n = self.ids.len();
        let mut k: usize = n;
        while k > 0
            invariant
                self.taken.wf(),
                self.taken() == old(self).taken().difference(names_at(names0, subi)),
                self.next_id == old(self).next_id,
                self.scene_path == old(self).scene_path,
                self.unsynced == old(self).unsynced,
                self.mirror_dirty == old(self).mirror_dirty,
                subi == sub@.map_values(|x: usize| x as int),
                doomed == Set::new(|i: int| subi.contains(i)),
                names0 == string_views(old(self).names@),
                n == old(self).ids@.len(),
                old(self).wf(),
                k <= n,
                self.ids@ == old(self).ids@.subrange(0, k as int) + kept(old(self).ids@, doomed, k as int),
                self.parents@ == old(self).parents@.subrange(0, k as int) + kept(old(self).parents@, doomed, k as int),
                self.payloads@ == old(self).payloads@.subrange(0, k as int) + kept(old(self).payloads@, doomed, k as int),
                string_views(self.names@) == names0.subrange(0, k as int) + kept(names0, doomed, k as int),
                self.ids@.len() == self.parents@.len(),
                self.ids@.len() == self.payloads@.len(),
                self.ids@.len() == self.names@.len(),
            decreases k,
        {
            proof {
                lemma_kept_step(old(self).ids@, doomed, k - 1);
                lemma_kept_step(old(self).parents@, doomed, k - 1);
                lemma_kept_step(old(self).payloads@, doomed, k - 1);
                lemma_kept_step(names0, doomed, k - 1);
            }
            if listed(&sub, k - 1) {
                let ghost before_names = string_views(self.names@);
                self.ids.remove(k - 1);
                self.parents.remove(k - 1);
                self.payloads.remove(k - 1);
                self.names.remove(k - 1);
                proof {
                    assert(doomed.contains(k - 1));
                    assert(string_views(self.names@) =~= before_names.remove(k - 1));
                    assert(self.ids@ =~= old(self).ids@.subrange(0, k - 1) + kept(old(self).ids@, doomed, k - 1));
                    assert(self.parents@ =~= old(self).parents@.subrange(0, k - 1) + kept(old(self).parents@, doomed, k - 1));
                    assert(self.payloads@ =~= old(self).payloads@.subrange(0, k - 1) + kept(old(self).payloads@, doomed, k - 1));
                    assert(string_views(self.names@) =~= names0.subrange(0, k - 1) + kept(names0, doomed, k - 1));
                }
            } else {
                proof {
                    assert(!doomed.contains(k - 1));
                    assert(self.ids@ =~= old(self).ids@.subrange(0, k - 1) + kept(old(self).ids@, doomed, k - 1));
                    assert(self.parents@ =~= old(self).parents@.subrange(0, k - 1) + kept(old(self).parents@, doomed, k - 1));
                    assert(self.payloads@ =~= old(self).payloads@.subrange(0, k - 1) + kept(old(self).payloads@, doomed, k - 1));
                    assert(string_views(self.names@) =~= names0.subrange(0, k - 1) + kept(names0, doomed, k - 1));
                }
            }
            k = k - 1;
        }
        proof {
            assert(self.ids@ =~= kept(old(self).ids@, doomed, 0));
            assert(self.parents@ =~= kept(old(self).parents@, doomed, 0));
            assert(self.payloads@ =~= kept(old(self).payloads@, doomed, 0));
            assert(string_views(self.names@) =~= kept(names0, doomed, 0));
            lemma_kept_increasing(old(self).ids@, doomed, 0);
        }
        // entities whose parent vanished become roots
        let ghost parents1 = self.parents@;
        let m = self.parents.len();
        let mut i: usize = 0;
        while i < m
            invariant
                m == self.parents@.len(),
                parents1.len() == m,
                self.ids@ == kept(old(self).ids@, doomed, 0),
                self.payloads@ == kept(old(self).payloads@, doomed, 0),
                string_views(self.names@) == kept(names0, doomed, 0),
                self.taken.wf(),
                self.taken() == old(self).taken().difference(names_at(names0, subi)),
                self.ids@.len() == self.payloads@.len(),
                self.ids@.len() == self.names@.len(),
                self.ids@.len() == m,
                increasing(self.ids@),
                self.next_id == old(self).next_id,
                self.scene_path == old(self).scene_path,
                self.mirror_dirty == old(self).mirror_dirty,
                i <= m,
                forall|j: int| 0 <= j < i ==> self.parents@[j] == fix_orphans(parents1, self.ids@, self.next_id as nat)[j],
                forall|j: int| i <= j < m ==> self.parents@[j] == parents1[j],
            decreases m - i,
        {
            match self.parents[i] {
                Some(p) => {
                    if p < self.next_id && !id_listed(&self.ids, p) {
                        self.parents.set(i, None);
                    }
                },
                None => {},
            }
            i = i + 1;
        }
        proof {
            assert(self.parents@ =~= fix_orphans(parents1, self.ids@, self.next_id as nat));
            let ids1 = self.ids@;
            assert forall|j: int| 0 <= j < ids1.len() implies #[trigger] ids1[j] < self.next_id by {
                let q = choose|q: int| 0 <= q < old(self).ids@.len() && old(self).ids@[q] == ids1[j];
            }
            let ids0 = old(self).ids@;
            assert forall|j: int| 0 <= j < ids0.len() && subi.contains(j)
                implies !ids1.contains(#[trigger] ids0[j]) by {
                assert forall|m: int| 0 <= m < ids0.len() && ids0[m] == ids0[j] implies doomed.contains(m) by {
                    if m < j {
                        assert(ids0[m] < ids0[j]);
                    } else if m > j {
                        assert(ids0[j] < ids0[m]);
                    }
                }
                lemma_kept_excludes(ids0, doomed, ids0[j]);
            }
            if ids0.contains(id) {
                let q = choose|q: int| 0 <= q < ids0.len() && ids0[q] == id;
                lemma_index_of_unique(ids0, id, q);
                assert(subi[0] == q);
                assert(subi.contains(q));
            } else {
                lemma_kept_excludes(ids0, doomed, id);
            }
        }
        self.unsynced = true;
    }

    /// Move the entity `id` under `new_parent` (a root for `None`). The move
    /// is refused when it would make the entity its own ancestor: when
    /// walking up from `new_parent` reaches `id`. It is refused as well when
    /// the chain above `new_parent` cycles without reaching `id` (a document
    /// read from disk can hold such a cycle; the walk then gives up after as
    /// many steps as there are entities). Returns whether the move happened;
    /// only then does the document change.
    pub fn reparent(&mut self, id: u64, new_parent: Option<u64>) -> (moved: bool)
        requires
            old(self).wf(),
        ensures
            final(self).wf(),
            moved == (index_of_spec(old(self).ids(), id) is Some
                && walk(old(self).ids(), old(self).parents(), new_parent, id, old(self).count() + 1) == WalkEnd::Ends),
            acyclic(old(self).ids(), old(self).parents()) ==> (moved == (index_of_spec(old(self).ids(), id) is Some
                && !(new_parent matches Some(p) && in_subtree(old(self).ids(), old(self).parents(), p, id)))),
            moved ==> final(self).parents() == old(self).parents().update(index_of_spec(old(self).ids(), id)->0, new_parent)
                && final(self).unsynced(),
            !moved ==> final(self).parents() == old(self).parents() && final(self).unsynced() == old(self).unsynced(),
            final(self).payloads() == old(self).payloads(),
            final(self).names() == old(self).names(),
            final(self).ids() == old(self).ids(),
            final(self).taken() == old(self).taken(),
            final(self).next_id() == old(self).next_id(),
            final(self).path() == old(self).path(),
            final(self).mirror_dirty() == old(self).mirror_dirty(),
    {
        let i = match self.index_of(id) {
            Some(i) => i,
            None => return false,
        };
        let n = self.ids.len();
        let mut cursor = new_parent;
        let mut fuel: u128 = n as u128 + 1;
        let mut end = WalkEnd::Exhausted;
        loop
            invariant_except_break
                self.wf(),
                self.ids@ == old(self).ids@,
                self.parents@ == old(self).parents@,
                walk(self.ids(), self.parents(), cursor, id, fuel as nat)
                    == walk(self.ids(), self.parents(), new_parent, id, (n + 1) as nat),
            ensures
                end == walk(old(self).ids(), old(self).parents(), new_parent, id, (n + 1) as nat),
            decreases fuel,
        {
            match cursor {
                None => {
                    end = WalkEnd::Ends;
                    break;
                },
                Some(c) => {
                    if c == id {
                        end = WalkEnd::Hits;
                        break;
                    }
                    if fuel == 0 {
                        end = WalkEnd::Exhausted;
                        break;
                    }
                    cursor = match self.index_of(c) {
                        Some(k) => self.parents[k],
                        None => None,
                    };
                    fuel = fuel - 1;
                },
            }
        }
        proof {
            if acyclic(self.ids(), self.parents()) {
                self.lemma_wf();
                lemma_reparent_refusal(self.ids(), self.parents(), id, new_parent);
            }
        }
        if end == WalkEnd::Ends {
            self.parents.set(i, new_parent);
            self.unsynced = true;
            true
        } else {
            false
        }
    }

    /// The rows of the subtree of entity `i` at `depth`, appended to `out`.
    fn emit_tree(&self, i: usize, depth: u32, selected: Option<u64>, flags: &Vec<NodeFlags>, out: &mut Vec<HierNode>)
        requires
            self.wf(),
            i < self.count(),
            depth <= 65,
            flags@.len() == self.count(),
        ensures
            final(out)@.map_values(|h: HierNode| hier_view(h)) == old(out)@.map_values(|h: HierNode| hier_view(h))
                + tree_rows(self.ids(), self.parents(), self.names(), flags@, selected, i as int, depth as nat),
        decreases 65 - depth, 0nat,
    {
        if depth > 64 {
            assert(out@.map_values(|h: HierNode| hier_view(h)) =~= old(out)@.map_values(|h: HierNode| hier_view(h))
                + tree_rows(self.ids(), self.parents(), self.names(), flags@, selected, i as int, depth as nat));
            return;
        }
        let id = self.ids[i];
        let kids = self.children(Some(id));
        let f = flags[i];
        let node = HierNode {
            id,
            name: self.names[i].clone(),
            icon: f.icon,
            visible: f.visible,
            locked: f.locked,
            has_children: kids.len() > 0,
            depth,
            selected: selected == Some(id),
        };
        let ghost before = out@.map_values(|h: HierNode| hier_view(h));
        out.push(node);
        proof {
            assert(hier_view(node) == row_of(self.ids(), self.parents(), self.names(), flags@, selected, i as int, depth as nat));
            assert(out@.map_values(|h: HierNode| hier_view(h)) =~= before.push(hier_view(node)));
            lemma_children_upto(self.parents@, Some(id), self.parents@.len() as int);
        }
        proof {
            let ki = kids@.map_values(|x: usize| x as int);
            assert forall|j: int| 0 <= j < kids@.len() implies #[trigger] kids@[j] < self.count() by {
                assert(ki[j] == kids@[j] as int);
            }
        }
        self.emit_forest(&kids, depth + 1, selected, flags, out);
        proof {
            assert(kids@.map_values(|x: usize| x as int) == children_of(self.parents(), Some(id)));
            assert(out@.map_values(|h: HierNode| hier_view(h)) =~= old(out)@.map_values(|h: HierNode| hier_view(h))
                + tree_rows(self.ids(), self.parents(), self.names(), flags@, selected, i as int, depth as nat));
        }
    }

    /// The rows of the subtrees of `cs`, in order, appended to `out`.
    fn emit_forest(&self, cs: &Vec<usize>, depth: u32, selected: Option<u64>, flags: &Vec<NodeFlags>, out: &mut Vec<HierNode>)
        requires
            self.wf(),
            forall|j: int| 0 <= j < cs@.len() ==> #[trigger] cs@[j] < self.count(),
            1 <= depth <= 65,
            flags@.len() == self.count(),
        ensures
            final(out)@.map_values(|h: HierNode| hier_view(h)) == old(out)@.map_values(|h: HierNode| hier_view(h))
                + forest_rows(self.ids(), self.parents(), self.names(), flags@, selected,
                    cs@.map_values(|x: usize| x as int), depth as nat),
        decreases 65 - depth, cs@.len() + 1,
    {
        let ghost csi = cs@.map_values(|x: usize| x as int);
        let n = cs.len();
        let mut k: usize = 0;
        assert(csi.subrange(0, n as int) =~= csi);
        while k < n
            invariant
                self.wf(),
                n == cs@.len(),
                csi == cs@.map_values(|x: usize| x as int),
                forall|j: int| 0 <= j < cs@.len() ==> #[trigger] cs@[j] < self.count(),
                1 <= depth <= 65,
                flags@.len() == self.count(),
                k <= n,
                out@.map_values(|h: HierNode| hier_view(h))
                    + forest_rows(self.ids(), self.parents(), self.names(), flags@, selected, csi.subrange(k as int, n as int), depth as nat)
                    == old(out)@.map_values(|h: HierNode| hier_view(h))
                    + forest_rows(self.ids(), self.parents(), self.names(), flags@, selected, csi, depth as nat),
            decreases n - k,
        {
            let ghost rest = csi.subrange(k as int, n as int);
            let ghost before = out@.map_values(|h: HierNode| hier_view(h));
            assert(rest[0] == cs@[k as int] as int);
            assert(rest.drop_first() =~= csi.subrange(k + 1, n as int));
            self.emit_tree(cs[k], depth, selected, flags, out);
            k = k + 1;
            proof {
                assert(before + forest_rows(self.ids(), self.parents(), self.names(), flags@, selected, rest, depth as nat)
                    =~= out@.map_values(|h: HierNode| hier_view(h))
                    + forest_rows(self.ids(), self.parents(), self.names(), flags@, selected, csi.subrange(k as int, n as int), depth as nat));
            }
        }
        proof {
            assert(csi.subrange(n as int, n as int) =~= Seq::<int>::empty());
            assert(out@.map_values(|h: HierNode| hier_view(h)) =~= old(out)@.map_values(|h: HierNode| hier_view(h))
                + forest_rows(self.ids(), self.parents(), self.names(), flags@, selected, csi, depth as nat));
        }
    }

    /// The flattened hierarchy shown by the hierarchy panel: each root in
    /// document order followed by its subtree (children in document order,
    /// one level deeper each), nothing deeper than [`MAX_DEPTH`]. `flags`
    /// gives each entity's icon and visibility/lock state; `selected` marks
    /// the selected entity's row.
    pub fn hierarchy(&self, selected: Option<u64>, flags: &Vec<NodeFlags>) -> (r: Vec<HierNode>)
        requires
            self.wf(),
            flags@.len() == self.count(),
        ensures
            r@.map_values(|h: HierNode| hier_view(h)) == forest_rows(self.ids(), self.parents(), self.names(), flags@,
                selected, children_of(self.parents(), None), 0),
            forall|a: int, b: int| 0 <= a < b < r@.len() ==> #[trigger] r@[a].id != #[trigger] r@[b].id,
            forall|k: int| 0 <= k < r@.len() ==> row_carries_flags(self.ids(), self.names(), flags@, selected,
                hier_view(#[trigger] r@[k])),
    {
        let roots = self.children(None);
        proof {
            lemma_children_upto(self.parents@, None, self.parents@.len() as int);
        }
        let mut out: Vec<HierNode> = Vec::new();
        let ghost csi = roots@.map_values(|x: usize| x as int);
        let n = roots.len();
        let mut k: usize = 0;
        assert(csi.subrange(0, n as int) =~= csi);
        assert(out@.map_values(|h: HierNode| hier_view(h)) =~= Seq::<HierView>::empty());
        while k < n
            invariant
                self.wf(),
                n == roots@.len(),
                csi == roots@.map_values(|x: usize| x as int),
                csi == children_of(self.parents(), None),
                forall|j: int| 0 <= j < csi.len() ==> 0 <= #[trigger] csi[j] < self.count(),
                flags@.len() == self.count(),
                k <= n,
                out@.map_values(|h: HierNode| hier_view(h))
                    + forest_rows(self.ids(), self.parents(), self.names(), flags@, selected, csi.subrange(k as int, n as int), 0)
                    == forest_rows(self.ids(), self.parents(), self.names(), flags@, selected, csi, 0),
            decreases n - k,
        {
            let ghost rest = csi.subrange(k as int, n as int);
            let ghost before = out@.map_values(|h: HierNode| hier_view(h));
            assert(rest[0] == roots@[k as int] as int);
            assert(rest.drop_first() =~= csi.subrange(k + 1, n as int));
            assert(roots@[k as int] < self.count()) by {
                assert(csi[k as int] == roots@[k as int] as int);
            }
            self.emit_tree(roots[k], 0, selected, flags, &mut out);
            k = k + 1;
            proof {
                assert(before + forest_rows(self.ids(), self.parents(), self.names(), flags@, selected, rest, 0)
                    =~= out@.map_values(|h: HierNode| hier_view(h))
                    + forest_rows(self.ids(), self.parents(), self.names(), flags@, selected, csi.subrange(k as int, n as int), 0));
            }
        }
        proof {
            assert(csi.subrange(0, n as int) =~= csi);
            assert(csi.subrange(n as int, n as int) =~= Seq::<int>::empty());
            assert(out@.map_values(|h: HierNode| hier_view(h)) =~= forest_rows(self.ids(), self.parents(), self.names(), flags@,
                selected, csi, 0));
            self.lemma_wf();
            lemma_hierarchy_rows_distinct(self.ids(), self.parents(), self.names(), flags@, selected);
            let views = out@.map_values(|h: HierNode| hier_view(h));
            assert forall|a: int, b: int| 0 <= a < b < out@.len() implies #[trigger] out@[a].id != #[trigger] out@[b].id by {
                assert(views[a].id == out@[a].id);
                assert(views[b].id == out@[b].id);
            }
            lemma_hierarchy_rows_carry_flags(self.ids(), self.parents(), self.names(), flags@, selected);
            assert forall|k: int| 0 <= k < out@.len() implies row_carries_flags(self.ids(), self.names(), flags@, selected,
                hier_view(#[trigger] out@[k])) by {
                assert(views[k] == hier_view(out@[k]));
                assert(row_carries_flags(self.ids(), self.names(), flags@, selected, views[k]));
            }
        }
        out
    }

    /// The parent of each entity by name, for saving: the name of the parent
    /// entity, or none for roots and parents that are not present.
    pub fn parent_names(&self) -> (r: Vec<Option<String>>)
        requires
            self.wf(),
        ensures
            r@.len() == self.count(),
            forall|i: int| 0 <= i < self.count() ==> match #[trigger] r@[i] {
                Some(s) => parent_name_spec(self.ids(), self.parents(), self.names(), i) == Some(s@),
                None => parent_name_spec(self.ids(), self.parents(), self.names(), i) is None,
            },
    {
        let n = self.ids.len();
        let mut r: Vec<Option<String>> = Vec::new();
        let mut i: usize = 0;
        while i < n
            invariant
                self.wf(),
                n == self.count(),
                i <= n,
                r@.len() == i,
                forall|k: int| 0 <= k < i ==> match #[trigger] r@[k] {
                    Some(s) => parent_name_spec(self.ids(), self.parents(), self.names(), k) == Some(s@),
                    None => parent_name_spec(self.ids(), self.parents(), self.names(), k) is None,
                },
            decreases n - i,
        {
            let name = match self.parents[i] {
                Some(p) => match self.index_of(p) {
                    Some(pi) => {
                        assert(string_views(self.names@)[pi as int] == self.names@[pi as int]@);
                        Some(self.names[pi].clone())
                    },
                    None => None,
                },
                None => None,
            };
            r.push(name);
            i = i + 1;
        }
        r
    }

    /// Whether `n` more ids can be handed out (spawning one entity needs one,
    /// duplicating a subtree one per copied entity).
    pub fn ids_left_for(&self, n: usize) -> (b: bool)
        requires
            self.wf(),
        ensures
            b == (self.next_id() + n < u64::MAX),
    {
        (n as u64) < u64::MAX - self.next_id
    }

    /// Record that the hierarchy/inspector mirror needs a rebuild.
    pub fn touch(&mut self)
        requires
            old(self).wf(),
        ensures
            final(self).wf(),
            final(self).mirror_dirty(),
            same_document(*old(self), *final(self)),
            final(self).unsynced() == old(self).unsynced(),
            final(self).path() == old(self).path(),
    {
        self.mirror_dirty = true;
    }

    /// Record an edit the engine has not seen.
    pub fn mark_unsynced(&mut self)
        requires
            old(self).wf(),
        ensures
            final(self).wf(),
            final(self).unsynced(),
            same_document(*old(self), *final(self)),
            final(self).mirror_dirty() == old(self).mirror_dirty(),
            final(self).path() == old(self).path(),
    {
        self.unsynced = true;
    }

    /// Whether edits exist that the engine has never seen.
    pub fn has_unsynced_edits(&self) -> (b: bool)
        ensures
            b == self.unsynced(),
    {
        self.unsynced
    }

    /// Read and clear the "mirror needs a rebuild" flag.
    pub fn take_mirror_dirty(&mut self) -> (b: bool)
        requires
            old(self).wf(),
        ensures
            final(self).wf(),
            b == old(self).mirror_dirty(),
            !final(self).mirror_dirty(),
            same_document(*old(self), *final(self)),
            final(self).unsynced() == old(self).unsynced(),
            final(self).path() == old(self).path(),
    {
        let b = self.mirror_dirty;
        self.mirror_dirty = false;
        b
    }

    /// File the document was opened from or saved to.
    pub fn scene_path(&self) -> (r: Option<String>)
        ensures
            match r {
                Some(s) => self.path() == Some(s@),
                None => self.path() is None,
            },
    {
        match &self.scene_path {
            Some(p) => Some(p.clone()),
            None => None,
        }
    }

    /// The document now matches the file at `path` (after a save).
    pub fn mark_saved(&mut self, path: String)
        requires
            old(self).wf(),
        ensures
            final(self).wf(),
            final(self).path() == Some(path@),
            !final(self).unsynced(),
            same_document(*old(self), *final(self)),
            final(self).mirror_dirty() == old(self).mirror_dirty(),
    {
        self.scene_path = Some(path);
        self.unsynced = false;
    }
}

/// The ids a freshly built document assigns: `FIRST_ID`, `FIRST_ID + 1`, ...
pub open spec fn fresh_ids(n: nat) -> Seq<u64> {
    Seq::new(n, |i: int| (FIRST_ID + i) as u64)
}

/// Position of the last entity named `name`, if any.
pub open spec fn last_named(names: Seq<Seq<char>>, name: Seq<char>) -> Option<int> {
    if exists|j: int| 0 <= j < names.len() && names[j] == name {
        Some(choose|j: int| 0 <= j < names.len() && names[j] == name
            && forall|k: int| j < k < names.len() ==> names[k] != name)
    } else {
        None
    }
}

/// The parent id a name reference resolves to in a freshly built document:
/// the id of the last entity with that name; dangling names resolve to no
/// parent.
pub open spec fn resolve_parent(names: Seq<Seq<char>>, parent: Option<Seq<char>>) -> Option<u64> {
    match parent {
        None => None,
        Some(n) => match last_named(names, n) {
            Some(j) => Some((FIRST_ID + j) as u64),
            None => None,
        },
    }
}

/// The set of the names in `names`.
pub open spec fn name_set(names: Seq<Seq<char>>) -> Set<Seq<char>> {
    Set::new(|x: Seq<char>| names.contains(x))
}

/// Position of the last of `names` equal to `name`.
fn find_last_named(names: &Vec<String>, name: &str) -> (r: Option<usize>)
    ensures
        match r {
            Some(j) => j < names@.len() && last_named(string_views(names@), name@) == Some(j as int),
            None => last_named(string_views(names@), name@) is None,
        },
{
    let ghost nv = string_views(names@);
    let n = names.len();
    let mut j: usize = n;
    while j > 0
        invariant
            n == names@.len(),
            nv == string_views(names@),
            j <= n,
            forall|k: int| j <= k < n ==> nv[k] != name@,
        decreases j,
    {
        j = j - 1;
        if crate::text::str_eq(names[j].as_str(), name) {
            proof {
                assert(nv[j as int] == name@);
                let c = choose|c: int| 0 <= c < nv.len() && nv[c] == name@
                    && forall|k: int| c < k < nv.len() ==> nv[k] != name@;
                if c < j {
                    assert(nv[j as int] != name@);
                } else if c > j {
                    assert(nv[c] != name@);
                }
            }
            return Some(j);
        }
    }
    None
}

/// The id of the copy made at the last position below `k` whose source
/// has id `id`.
pub open spec fn last_copy_below(ids: Seq<u64>, sub: Seq<int>, next: nat, id: u64, k: int) -> Option<u64>
    decreases k,
{
    if k <= 0 {
        None
    } else if ids[sub[k - 1]] == id {
        Some((next + k - 1) as u64)
    } else {
        last_copy_below(ids, sub, next, id, k - 1)
    }
}

/// Position of the first pair of `map` whose source id is `p`.
fn first_mapped(map: &Vec<(u64, u64)>, p: u64) -> (r: Option<usize>)
    ensures
        match r {
            Some(j) => j < map@.len() && map@[j as int].0 == p
                && forall|l: int| 0 <= l < j ==> (#[trigger] map@[l]).0 != p,
            None => forall|l: int| 0 <= l < map@.len() ==> (#[trigger] map@[l]).0 != p,
        },
{
    let n = map.len();
    let mut j: usize = 0;
    while j < n
        invariant
            n == map@.len(),
            j <= n,
            forall|l: int| 0 <= l < j ==> (#[trigger] map@[l]).0 != p,
        decreases n - j,
    {
        if map[j].0 == p {
            return Some(j);
        }
        j = j + 1;
    }
    None
}

/// The parent computed from the copy map is [`copy_parent`].
pub proof fn lemma_copy_parent(ids: Seq<u64>, parents: Seq<Option<u64>>, sub: Seq<int>, next: nat, k: int, map: Seq<(u64, u64)>)
    requires
        0 <= k < sub.len(),
        map.len() == k,
        forall|j: int| 0 <= j < k ==> (#[trigger] map[j]).0 == ids[sub[j]] && map[j].1 == next + j,
    ensures
        match parents[sub[k]] {
            None => copy_parent(ids, parents, sub, next, k) is None,
            Some(p) => {
                &&& (forall|l: int| 0 <= l < map.len() ==> (#[trigger] map[l]).0 != p) ==>
                    copy_parent(ids, parents, sub, next, k) == Some(p)
                &&& forall|j: int| 0 <= j < map.len() && map[j].0 == p
                    && (forall|l: int| 0 <= l < j ==> (#[trigger] map[l]).0 != p) ==>
                    copy_parent(ids, parents, sub, next, k) == Some(map[j].1)
            },
        },
{
    match parents[sub[k]] {
        None => {},
        Some(p) => {
            if forall|l: int| 0 <= l < map.len() ==> (#[trigger] map[l]).0 != p {
                assert forall|c: int| !first_copy_of(ids, sub, p, c, k) by {
                    if 0 <= c < k {
                        assert(map[c].0 != p);
                    }
                }
            }
            assert forall|j: int| 0 <= j < map.len() && map[j].0 == p
                && (forall|l: int| 0 <= l < j ==> (#[trigger] map[l]).0 != p) implies
                copy_parent(ids, parents, sub, next, k) == Some(map[j].1) by {
                assert forall|l: int| 0 <= l < j implies ids[#[trigger] sub[l]] != p by {
                    assert(map[l].0 != p);
                }
                assert(first_copy_of(ids, sub, p, j, k));
                let c = choose|c: int| first_copy_of(ids, sub, p, c, k);
                if c < j {
                    assert(map[c].0 != p);
                } else if c > j {
                    assert(ids[sub[j]] != p);
                }
            }
        },
    }
}

impl<P: Clone> OfflineScene<P> {
    /// Duplicate the entity `id` with all its descendants. Copies are
    /// appended in subtree order with fresh ids and unique names; copies of
    /// children hang under the copies of their parents, the copy of `id`
    /// under the source's parent. Returns the id of the copy of `id` (if
    /// it exists); the document counts as edited.
    #[verifier::rlimit(40)]
    pub fn duplicate(&mut self, id: u64) -> (spawned: Option<u64>)
        requires
            old(self).wf(),
            old(self).next_id() + subtree_spec(old(self).ids(), old(self).parents(), id).len() < u64::MAX,
        ensures
            final(self).wf(),
            ({
                let sub = subtree_spec(old(self).ids(), old(self).parents(), id);
                let m = sub.len();
                let nx = old(self).next_id();
                &&& final(self).ids() == old(self).ids() + Seq::new(m, |k: int| (nx + k) as u64)
                &&& final(self).names() == old(self).names()
                        + Seq::new(m, |k: int| copy_name(old(self).taken(), old(self).names(), sub, k as nat))
                &&& final(self).parents() == old(self).parents()
                        + Seq::new(m, |k: int| copy_parent(old(self).ids(), old(self).parents(), sub, nx, k))
                &&& final(self).payloads().len() == old(self).payloads().len() + m
                &&& final(self).payloads().subrange(0, old(self).count() as int) == old(self).payloads()
                &&& forall|k: int| 0 <= k < m ==> cloned(old(self).payloads()[sub[k]],
                        #[trigger] final(self).payloads()[old(self).count() + k])
                &&& final(self).taken() == copies_taken(old(self).taken(), old(self).names(), sub, m)
                &&& final(self).next_id() == nx + m
                &&& spawned == last_copy_below(old(self).ids(), sub, nx, id, m as int)
            }),
            final(self).unsynced(),
            final(self).path() == old(self).path(),
            final(self).mirror_dirty() == old(self).mirror_dirty(),
    {
        let sub = self.subtree_indices(id);
        let ghost subi = sub@.map_values(|x: usize| x as int);
        let ghost ids0 = self.ids@;
        let ghost parents0 = self.parents@;
        let ghost names0 = self.names();
        let ghost payloads0 = self.payloads@;
        let ghost taken0 = self.taken();
        let n0 = self.ids.len();
        let nx = self.next_id;
        let m = sub.len();
        let mut id_map: Vec<(u64, u64)> = Vec::new();
        let mut spawned: Option<u64> = None;
        let mut k: usize = 0;
        while k < m
            invariant
                m == sub@.len(),
                subi == sub@.map_values(|x: usize| x as int),
                subi == subtree_spec(ids0, parents0, id),
                forall|j: int| 0 <= j < m ==> #[trigger] sub@[j] < n0,
                n0 == ids0.len(),
                nx == old(self).next_id,
                nx + m < u64::MAX,
                ids0 == old(self).ids@,
                parents0 == old(self).parents@,
                payloads0 == old(self).payloads@,
                names0 == string_views(old(self).names@),
                taken0 == old(self).taken(),
                old(self).wf(),
                k <= m,
                self.taken.wf(),
                self.next_id == nx + k,
                self.ids@ == ids0 + Seq::new(k as nat, |j: int| (nx + j) as u64),
                string_views(self.names@) == names0 + Seq::new(k as nat, |j: int| copy_name(taken0, names0, subi, j as nat)),
                self.parents@ == parents0 + Seq::new(k as nat, |j: int| copy_parent(ids0, parents0, subi, nx as nat, j)),
                self.payloads@.len() == n0 + k,
                self.names@.len() == n0 + k,
                self.parents@.len() == n0 + k,
                self.payloads@.subrange(0, n0 as int) == payloads0,
                forall|j: int| 0 <= j < k ==> cloned(payloads0[subi[j]], #[trigger] self.payloads@[n0 + j]),
                self.taken() == copies_taken(taken0, names0, subi, k as nat),
                id_map@.len() == k,
                forall|j: int| 0 <= j < k ==> (#[trigger] id_map@[j]).0 == ids0[subi[j]] && id_map@[j].1 == nx + j,
                spawned == last_copy_below(ids0, subi, nx as nat, id, k as int),
                self.scene_path == old(self).scene_path,
                self.mirror_dirty == old(self).mirror_dirty,
            decreases m - k,
        {
            let i = sub[k];
            proof {
                assert(subi[k as int] == i as int);
            }
            let copy = self.payloads[i].clone();
            let old_id = self.ids[i];
            let new_id = self.next_id;
            self.next_id = self.next_id + 1;
            proof {
                assert(string_views(self.names@)[i as int] == names0[i as int]);
            }
            let name = self.taken.unique_name(self.names[i].as_str());
            proof {
                assert(name@ == copy_name(taken0, names0, subi, k as nat));
            }
            if old_id == id {
                spawned = Some(new_id);
            }
            self.taken.insert(name.as_str());
            let ghost nm = name@;
            let ghost names_before = string_views(self.names@);
            self.payloads.push(copy);
            self.names.push(name);
            self.ids.push(new_id);
            let parent = match self.parents[i] {
                None => None,
                Some(p) => match first_mapped(&id_map, p) {
                    Some(j) => Some(id_map[j].1),
                    None => Some(p),
                },
            };
            proof {
                assert(parents0[i as int] == self.parents@[i as int]);
                lemma_copy_parent(ids0, parents0, subi, nx as nat, k as int, id_map@);
            }
            proof {
                assert(parent == copy_parent(ids0, parents0, subi, nx as nat, k as int));
            }
            self.parents.push(parent);
            id_map.push((old_id, new_id));
            k = k + 1;
            proof {
                assert(self.ids@ =~= ids0 + Seq::new(k as nat, |j: int| (nx + j) as u64));
                assert(string_views(self.names@) =~= names_before.push(nm));
                assert(string_views(self.names@) =~= names0 + Seq::new(k as nat, |j: int| copy_name(taken0, names0, subi, j as nat)));
                assert(self.parents@ =~= parents0 + Seq::new(k as nat, |j: int| copy_parent(ids0, parents0, subi, nx as nat, j)));
                assert(self.payloads@.subrange(0, n0 as int) =~= payloads0);
                assert forall|a: int, b: int| 0 <= a < b < self.ids@.len() implies self.ids@[a] < self.ids@[b] by {
                    if b >= n0 && a < n0 {
                        assert(ids0[a] < nx);
                    }
                }
            }
        }
        self.unsynced = true;
        proof {
            assert forall|j: int| 0 <= j < self.ids@.len() implies #[trigger] self.ids@[j] < self.next_id by {
                if j < n0 {
                    assert(ids0[j] < nx);
                }
            }
        }
        spawned
    }
}

/// What spawning an entity named after `base` under `parent` with
/// `payload` does to a document: the entity is appended with the next id
/// and a name made unique against the names in use; a parent that is not in
/// the document makes it a root; the document counts as edited.
pub open spec fn spawned<P>(
    before: OfflineScene<P>,
    base: Seq<char>,
    parent: Option<u64>,
    payload: P,
    after: OfflineScene<P>,
    id: u64,
) -> bool {
    let name = unique_name_spec(before.taken(), base);
    &&& id == before.next_id()
    &&& after.payloads() == before.payloads().push(payload)
    &&& after.names() == before.names().push(name)
    &&& after.ids() == before.ids().push(id)
    &&& after.parents() == before.parents().push(
            match parent {
                Some(p) => if index_of_spec(before.ids(), p) is Some { Some(p) } else { None },
                None => None,
            },
        )
    &&& after.taken() == before.taken().insert(name)
    &&& after.next_id() == before.next_id() + 1
    &&& after.unsynced()
    &&& after.path() == before.path()
    &&& after.mirror_dirty() == before.mirror_dirty()
}

/// What deleting entity `id` does to a document: the entity (when present)
/// and its descendants leave, keeping the order of the others; their names
/// leave the name set; parents that vanished become roots; the document
/// counts as edited.
pub open spec fn deleted<P>(before: OfflineScene<P>, id: u64, after: OfflineScene<P>) -> bool {
    let sub = subtree_spec(before.ids(), before.parents(), id);
    let doomed = Set::new(|i: int| sub.contains(i));
    &&& after.payloads() == kept(before.payloads(), doomed, 0)
    &&& after.names() == kept(before.names(), doomed, 0)
    &&& after.ids() == kept(before.ids(), doomed, 0)
    &&& after.parents() == fix_orphans(kept(before.parents(), doomed, 0), after.ids(), before.next_id())
    &&& after.taken() == before.taken().difference(names_at(before.names(), sub))
    &&& after.next_id() == before.next_id()
    &&& after.unsynced()
    &&& after.path() == before.path()
    &&& after.mirror_dirty() == before.mirror_dirty()
}

/// Every parent link points at an entity of the document.
pub open spec fn links_present(ids: Seq<u64>, parents: Seq<Option<u64>>) -> bool {
    forall|i: int| 0 <= i < parents.len() && (#[trigger] parents[i]) is Some ==> ids.contains(parents[i]->0)
}

/// Keeping all but the appended last element gives back the sequence.
proof fn lemma_kept_push<T>(s: Seq<T>, x: T, lo: int)
    requires
        0 <= lo <= s.len(),
    ensures
        kept(s.push(x), Set::new(|i: int| i == s.len()), lo) == s.subrange(lo, s.len() as int),
    decreases s.len() - lo,
{
    let d = Set::new(|i: int| i == s.len());
    if lo < s.len() {
        lemma_kept_push(s, x, lo + 1);
        assert(!d.contains(lo));
        assert(s.push(x)[lo] == s[lo]);
        assert(seq![s[lo]] + s.subrange(lo + 1, s.len() as int) =~= s.subrange(lo, s.len() as int));
    } else {
        assert(d.contains(lo));
        assert(kept(s.push(x), d, lo + 1) == Seq::<T>::empty());
        assert(s.subrange(lo, s.len() as int) =~= Seq::<T>::empty());
    }
}

/// Spawning an entity and deleting it right away gives back the document,
/// only the id counter having moved on, as long as every parent link points
/// at an entity of the document and the name space of `base` is not used up.
pub proof fn lemma_spawn_then_delete<P>(
    s0: OfflineScene<P>,
    base: Seq<char>,
    parent: Option<u64>,
    payload: P,
    s1: OfflineScene<P>,
    id: u64,
    s2: OfflineScene<P>,
)
    requires
        s0.wf(),
        s1.wf(),
        links_present(s0.ids(), s0.parents()),
        !(s0.taken().contains(base)
            && (forall|i: int| 1 <= i < 10000 ==> s0.taken().contains(#[trigger] numbered(base, i as nat)))
            && s0.taken().contains(base + ".dup"@)),
        spawned(s0, base, parent, payload, s1, id),
        deleted(s1, id, s2),
    ensures
        s2.payloads() == s0.payloads(),
        s2.names() == s0.names(),
        s2.ids() == s0.ids(),
        s2.parents() == s0.parents(),
        s2.taken() == s0.taken(),
        s2.next_id() == s0.next_id() + 1,
{
    s0.lemma_wf();
    s1.lemma_wf();
    let n = s0.count();
    let name = unique_name_spec(s0.taken(), base);
    lemma_unique_name_fresh(s0.taken(), base);
    let ids1 = s1.ids();
    let parents1 = s1.parents();
    // the new entity is found at the end, and nothing hangs under it
    lemma_index_of_unique(ids1, id, n as int);
    assert forall|i: int| 0 <= i < parents1.len() implies parents1[i] != Some(id) by {
        if i < n {
            assert(parents1[i] == s0.parents()[i]);
            if s0.parents()[i] is Some {
                assert(s0.ids().contains(s0.parents()[i]->0));
                let k = choose|k: int| 0 <= k < n && s0.ids()[k] == s0.parents()[i]->0;
                assert(s0.ids()[k] < s0.next_id());
            }
        } else {
            match parent {
                Some(p) => {
                    if index_of_spec(s0.ids(), p) is Some {
                        let k = index_of_spec(s0.ids(), p)->0;
                        assert(s0.ids()[k] == p);
                        assert(p < s0.next_id());
                    }
                },
                None => {},
            }
        }
    }
    lemma_children_upto(parents1, Some(id), parents1.len() as int);
    let cs = children_of(parents1, Some(id));
    if cs.len() > 0 {
        assert(parents1[cs[0]] == Some(id));
    }
    assert(cs =~= Seq::<int>::empty());
    let sub = subtree_spec(ids1, parents1, id);
    assert(sub =~= seq![n as int]);
    let doomed = Set::new(|i: int| sub.contains(i));
    assert forall|i: int| #[trigger] sub.contains(i) <==> i == n by {
        if i == n {
            assert(sub[0] == i);
        }
    }
    assert(doomed =~= Set::new(|i: int| i == s0.payloads().len()));
    lemma_kept_push(s0.payloads(), payload, 0);
    assert(s0.names().len() == n);
    assert(doomed =~= Set::new(|i: int| i == s0.names().len()));
    lemma_kept_push(s0.names(), name, 0);
    assert(doomed =~= Set::new(|i: int| i == s0.ids().len()));
    lemma_kept_push(s0.ids(), id, 0);
    let par = parents1[n as int];
    assert(doomed =~= Set::new(|i: int| i == s0.parents().len()));
    assert(parents1 =~= s0.parents().push(par));
    lemma_kept_push(s0.parents(), par, 0);
    assert(s0.payloads().subrange(0, n as int) =~= s0.payloads());
    assert(s0.names().subrange(0, n as int) =~= s0.names());
    assert(s0.ids().subrange(0, n as int) =~= s0.ids());
    assert(s0.parents().subrange(0, n as int) =~= s0.parents());
    assert(s2.parents() =~= s0.parents());
    assert(s1.names()[n as int] == name);
    assert forall|x: Seq<char>| #[trigger] names_at(s1.names(), sub).contains(x) <==> x == name by {
        if x == name {
            assert(s1.names()[sub[0]] == x);
        }
    }
    assert(names_at(s1.names(), sub) =~= set![name]);
    assert(s2.taken() =~= s0.taken());
}

/// With distinct names, the last entity of a name is the one that has it.
proof fn lemma_last_named_distinct(names: Seq<Seq<char>>, k: int)
    requires
        0 <= k < names.len(),
        forall|a: int, b: int| 0 <= a < b < names.len() ==> names[a] != names[b],
    ensures
        last_named(names, names[k]) == Some(k),
{
    let j = choose|j: int| 0 <= j < names.len() && names[j] == names[k]
        && forall|m: int| j < m < names.len() ==> names[m] != names[k];
    assert(names[k] == names[k]);
    if j < k {
        assert(names[j] != names[k]);
    } else if j > k {
        assert(names[k] != names[j]);
    }
}

/// Saving the hierarchy by parent names and reading it back keeps its shape
/// when names are distinct: every entity's parent after the round trip is
/// the renumbered id of the position its parent had before; a parent id
/// that was not in the document becomes no parent.
pub proof fn lemma_parent_names_roundtrip(ids: Seq<u64>, parents: Seq<Option<u64>>, names: Seq<Seq<char>>, i: int)
    requires
        increasing(ids),
        names.len() == ids.len(),
        parents.len() == ids.len(),
        forall|a: int, b: int| 0 <= a < b < names.len() ==> names[a] != names[b],
        0 <= i < ids.len(),
    ensures
        resolve_parent(names, parent_name_spec(ids, parents, names, i)) == match parents[i] {
            Some(p) => match index_of_spec(ids, p) {
                Some(k) => Some(fresh_ids(names.len())[k]),
                None => None,
            },
            None => None,
        },
{
    match parents[i] {
        Some(p) => match index_of_spec(ids, p) {
            Some(k) => {
                lemma_last_named_distinct(names, k);
            },
            None => {},
        },
        None => {},
    }
}

/// The name of the parent of entity `i`, if its parent is present.
pub open spec fn parent_name_spec(ids: Seq<u64>, parents: Seq<Option<u64>>, names: Seq<Seq<char>>, i: int) -> Option<Seq<char>> {
    match parents[i] {
        Some(p) => match index_of_spec(ids, p) {
            Some(pi) => Some(names[pi]),
            None => None,
        },
        None => None,
    }
}

/// What an entity of the scene document is.
#[derive(Debug, Clone, Copy, PartialEq, Eq, Structural)]
pub enum SceneEntityKind {
    Empty,
    Mesh(MeshPrimitive),
    Camera,
    DirectionalLight,
    PointLight,
    SpotLight,
}

/// The gameplay script components an entity can carry.
#[derive(Debug, Clone, Copy, PartialEq, Eq, Structural)]
pub enum ScriptKind {
    Rotator,
    Orbiter,
    LinearMover,
    PingPongMover,
    Player,
    CharacterController,
    Health,
    Inventory,
}

/// The script component a component kind names, if it names one.
pub open spec fn script_of_component_spec(c: ComponentKind) -> Option<ScriptKind> {
    match c {
        ComponentKind::Rotator => Some(ScriptKind::Rotator),
        ComponentKind::Orbiter => Some(ScriptKind::Orbiter),
        ComponentKind::LinearMover => Some(ScriptKind::LinearMover),
        ComponentKind::PingPongMover => Some(ScriptKind::PingPongMover),
        ComponentKind::Player => Some(ScriptKind::Player),
        ComponentKind::CharacterController => Some(ScriptKind::CharacterController),
        ComponentKind::Health => Some(ScriptKind::Health),
        ComponentKind::Inventory => Some(ScriptKind::Inventory),
        _ => None,
    }
}

/// The script component a component kind names, if it names one.
pub fn script_of_component(c: ComponentKind) -> (r: Option<ScriptKind>)
    ensures
        r == script_of_component_spec(c),
{
    match c {
        ComponentKind::Rotator => Some(ScriptKind::Rotator),
        ComponentKind::Orbiter => Some(ScriptKind::Orbiter),
        ComponentKind::LinearMover => Some(ScriptKind::LinearMover),
        ComponentKind::PingPongMover => Some(ScriptKind::PingPongMover),
        ComponentKind::Player => Some(ScriptKind::Player),
        ComponentKind::CharacterController => Some(ScriptKind::CharacterController),
        ComponentKind::Health => Some(ScriptKind::Health),
        ComponentKind::Inventory => Some(ScriptKind::Inventory),
        _ => None,
    }
}

/// Whether `scripts` holds a script of kind `k`.
pub fn has_script(scripts: &Vec<ScriptKind>, k: ScriptKind) -> (r: bool)
    ensures
        r == scripts@.contains(k),
{
    let n = scripts.len();
    let mut i: usize = 0;
    while i < n
        invariant
            n == scripts@.len(),
            i <= n,
            forall|j: int| 0 <= j < i ==> scripts@[j] != k,
        decreases n - i,
    {
        if scripts[i] == k {
            return true;
        }
        i = i + 1;
    }
    false
}

/// The hierarchy icon of an entity: cameras and lights by kind; a mesh is a
/// player when it carries a player script; an empty entity is a script
/// holder when it carries any script, else a group.
pub open spec fn icon_spec(kind: SceneEntityKind, scripts: Seq<ScriptKind>) -> NodeIcon {
    match kind {
        SceneEntityKind::Camera => NodeIcon::Camera,
        SceneEntityKind::DirectionalLight | SceneEntityKind::PointLight | SceneEntityKind::SpotLight => NodeIcon::Light,
        SceneEntityKind::Mesh(_) => if scripts.contains(ScriptKind::Player) { NodeIcon::Player } else { NodeIcon::Mesh },
        SceneEntityKind::Empty => if scripts.len() > 0 { NodeIcon::Script } else { NodeIcon::Group },
    }
}

/// The hierarchy icon of an entity (see [`icon_spec`]).
pub fn icon_of(kind: SceneEntityKind, scripts: &Vec<ScriptKind>) -> (r: NodeIcon)
    ensures
        r == icon_spec(kind, scripts@),
{
    match kind {
        SceneEntityKind::Camera => NodeIcon::Camera,
        SceneEntityKind::DirectionalLight | SceneEntityKind::PointLight | SceneEntityKind::SpotLight => NodeIcon::Light,
        SceneEntityKind::Mesh(_) => if has_script(scripts, ScriptKind::Player) { NodeIcon::Player } else { NodeIcon::Mesh },
        SceneEntityKind::Empty => if scripts.len() > 0 { NodeIcon::Script } else { NodeIcon::Group },
    }
}

/// What adding a component to an entity does offline: a material only when
/// the entity has none; a script component only when the entity does not
/// carry that script yet; every other component is intrinsic and is not
/// added.
pub open spec fn adds_component(c: ComponentKind, has_material: bool, scripts: Seq<ScriptKind>) -> bool {
    match script_of_component_spec(c) {
        Some(k) => !scripts.contains(k),
        None => c == ComponentKind::Material && !has_material,
    }
}

/// Whether adding component `c` applies (see [`adds_component`]).
pub fn component_addable(c: ComponentKind, has_material: bool, scripts: &Vec<ScriptKind>) -> (r: bool)
    ensures
        r == adds_component(c, has_material, scripts@),
{
    match script_of_component(c) {
        Some(k) => !has_script(scripts, k),
        None => c == ComponentKind::Material && !has_material,
    }
}

/// What removing a component does offline: a material when present; a
/// script component when the entity carries that script; every other
/// component is intrinsic and stays.
pub open spec fn removes_component(c: ComponentKind, has_material: bool, scripts: Seq<ScriptKind>) -> bool {
    match script_of_component_spec(c) {
        Some(k) => scripts.contains(k),
        None => c == ComponentKind::Material && has_material,
    }
}

/// Whether removing component `c` applies (see [`removes_component`]).
pub fn component_removable(c: ComponentKind, has_material: bool, scripts: &Vec<ScriptKind>) -> (r: bool)
    ensures
        r == removes_component(c, has_material, scripts@),
{
    match script_of_component(c) {
        Some(k) => has_script(scripts, k),
        None => c == ComponentKind::Material && has_material,
    }
}

/// Positions of the scripts whose kind is not `k`, in order.
pub open spec fn kept_positions_spec(scripts: Seq<ScriptKind>, k: ScriptKind) -> Seq<int>
    decreases scripts.len(),
{
    if scripts.len() == 0 {
        Seq::empty()
    } else {
        let rest = kept_positions_spec(scripts.drop_last(), k);
        if scripts.last() != k {
            rest.push(scripts.len() - 1)
        } else {
            rest
        }
    }
}

/// Positions of the scripts that stay when every script of kind `k` is
/// removed (see [`kept_positions_spec`]).
pub fn kept_positions(scripts: &Vec<ScriptKind>, k: ScriptKind) -> (r: Vec<usize>)
    ensures
        r@.map_values(|x: usize| x as int) == kept_positions_spec(scripts@, k),
{
    let n = scripts.len();
    let mut r: Vec<usize> = Vec::new();
    let mut i: usize = 0;
    while i < n
        invariant
            n == scripts@.len(),
            i <= n,
            r@.map_values(|x: usize| x as int) == kept_positions_spec(scripts@.subrange(0, i as int), k),
        decreases n - i,
    {
        proof {
            assert(scripts@.subrange(0, i + 1).drop_last() =~= scripts@.subrange(0, i as int));
        }
        if scripts[i] != k {
            r.push(i);
            proof {
                assert(r@.map_values(|x: usize| x as int) =~= kept_positions_spec(scripts@.subrange(0, i as int), k).push(i as int));
            }
        }
        i = i + 1;
    }
    assert(scripts@.subrange(0, n as int) =~= scripts@);
    r
}

/// The scripts left after removing every script of kind `k`.
pub fn without_script(scripts: &Vec<ScriptKind>, k: ScriptKind) -> (r: Vec<ScriptKind>)
    ensures
        r@ == scripts@.filter(|s: ScriptKind| s != k),
{
    let n = scripts.len();
    let mut r: Vec<ScriptKind> = Vec::new();
    let mut i: usize = 0;
    while i < n
        invariant
            n == scripts@.len(),
            i <= n,
            r@ == scripts@.subrange(0, i as int).filter(|s: ScriptKind| s != k),
        decreases n - i,
    {
        let s = scripts[i];
        proof {
            assert(scripts@.subrange(0, i + 1).drop_last() =~= scripts@.subrange(0, i as int));
            reveal_with_fuel(Seq::<ScriptKind>::filter, 1);
        }
        if s != k {
            r.push(s);
        }
        i = i + 1;
    }
    assert(scripts@.subrange(0, n as int) =~= scripts@);
    r
}

/// The chain of parents above `cursor` reaches its end (a root or a missing
/// parent) within `fuel` steps.
pub open spec fn chain_ends(ids: Seq<u64>, parents: Seq<Option<u64>>, cursor: Option<u64>, fuel: nat) -> bool
    decreases fuel,
{
    match cursor {
        None => true,
        Some(c) => fuel > 0 && chain_ends(ids, parents, parent_of_id(ids, parents, c), (fuel - 1) as nat),
    }
}

/// The parent chain above entity id `c` ends.
pub open spec fn ends_above(ids: Seq<u64>, parents: Seq<Option<u64>>, c: u64) -> bool {
    exists|f: nat| chain_ends(ids, parents, Some(c), f)
}

/// No entity is its own ancestor: every parent chain ends.
pub open spec fn acyclic(ids: Seq<u64>, parents: Seq<Option<u64>>) -> bool {
    forall|i: int| 0 <= i < ids.len() ==> #[trigger] ends_above(ids, parents, ids[i])
}

/// A walk from `cursor` that ends without meeting entity `i` also ends once
/// the parent of `i` is changed.
proof fn lemma_walk_ends_after_update(
    ids: Seq<u64>,
    parents: Seq<Option<u64>>,
    i: int,
    new_parent: Option<u64>,
    cursor: Option<u64>,
    fuel: nat,
)
    requires
        0 <= i < ids.len(),
        parents.len() == ids.len(),
        walk(ids, parents, cursor, ids[i], fuel) == WalkEnd::Ends,
    ensures
        chain_ends(ids, parents.update(i, new_parent), cursor, fuel),
    decreases fuel,
{
    match cursor {
        None => {},
        Some(c) => {
            let next = parent_of_id(ids, parents, c);
            lemma_walk_ends_after_update(ids, parents, i, new_parent, next, (fuel - 1) as nat);
            match index_of_spec(ids, c) {
                Some(k) => {
                    assert(ids[k] == c);
                    assert(k != i);
                },
                None => {},
            }
            assert(parent_of_id(ids, parents.update(i, new_parent), c) == next);
        },
    }
}

/// A chain that ends before the parent of entity `i` is changed to a
/// parent whose own chain avoids `i` still ends afterwards.
proof fn lemma_chain_ends_after_update(
    ids: Seq<u64>,
    parents: Seq<Option<u64>>,
    i: int,
    new_parent: Option<u64>,
    bound: nat,
    cursor: Option<u64>,
    fuel: nat,
) -> (f2: nat)
    requires
        0 <= i < ids.len(),
        parents.len() == ids.len(),
        increasing(ids),
        walk(ids, parents, new_parent, ids[i], bound) == WalkEnd::Ends,
        chain_ends(ids, parents, cursor, fuel),
    ensures
        chain_ends(ids, parents.update(i, new_parent), cursor, f2),
    decreases fuel,
{
    let p2 = parents.update(i, new_parent);
    match cursor {
        None => 0,
        Some(c) => {
            if c == ids[i] {
                lemma_index_of_unique(ids, c, i);
                assert(parent_of_id(ids, p2, c) == new_parent);
                lemma_walk_ends_after_update(ids, parents, i, new_parent, new_parent, bound);
                bound + 1
            } else {
                let next = parent_of_id(ids, parents, c);
                let f = lemma_chain_ends_after_update(ids, parents, i, new_parent, bound, next, (fuel - 1) as nat);
                match index_of_spec(ids, c) {
                    Some(k) => {
                        assert(ids[k] == c);
                        assert(k != i);
                    },
                    None => {},
                }
                assert(parent_of_id(ids, p2, c) == next);
                f + 1
            }
        },
    }
}

/// Reparenting never creates a cycle: when the scene has none and the
/// reparent of `id` under `new_parent` is performed (the walk up from
/// `new_parent` ends without meeting `id`), the scene still has none.
pub proof fn lemma_reparent_keeps_acyclic(
    ids: Seq<u64>,
    parents: Seq<Option<u64>>,
    id: u64,
    new_parent: Option<u64>,
)
    requires
        parents.len() == ids.len(),
        increasing(ids),
        acyclic(ids, parents),
        index_of_spec(ids, id) is Some,
        walk(ids, parents, new_parent, id, ids.len() + 1) == WalkEnd::Ends,
    ensures
        acyclic(ids, parents.update(index_of_spec(ids, id)->0, new_parent)),
{
    let i = index_of_spec(ids, id)->0;
    assert(ids[i] == id);
    let p2 = parents.update(i, new_parent);
    assert forall|j: int| 0 <= j < ids.len() implies #[trigger] ends_above(ids, p2, ids[j]) by {
        assert(ends_above(ids, parents, ids[j]));
        let f = choose|f: nat| chain_ends(ids, parents, Some(ids[j]), f);
        let f2 = lemma_chain_ends_after_update(ids, parents, i, new_parent, (ids.len() + 1) as nat, Some(ids[j]), f);
        assert(chain_ends(ids, p2, Some(ids[j]), f2));
    }
    assert(acyclic(ids, p2));
}

/// Entity id `p` is `id` itself or an entity whose parent chain leads to
/// `id`: one that deleting `id` removes.
pub open spec fn in_subtree(ids: Seq<u64>, parents: Seq<Option<u64>>, p: u64, id: u64) -> bool {
    p == id || match index_of_spec(ids, p) {
        Some(q) => leads_to(ids, parents, q, id),
        None => false,
    }
}

/// An entity whose chain of parent ids ends has a parent chain that ends.
proof fn lemma_chain_ends_grounded(ids: Seq<u64>, parents: Seq<Option<u64>>, x: int, f: nat)
    requires
        increasing(ids),
        parents.len() == ids.len(),
        0 <= x < ids.len(),
        chain_ends(ids, parents, Some(ids[x]), f),
    ensures
        grounded(ids, parents, x),
    decreases f,
{
    lemma_index_of_unique(ids, ids[x], x);
    assert(ancestor(ids, parents, x, 0) == Some(x));
    match parents[x] {
        None => {
            assert(ancestor(ids, parents, x, 1) is None);
        },
        Some(p) => match index_of_spec(ids, p) {
            None => {
                assert(ancestor(ids, parents, x, 1) is None);
            },
            Some(y) => {
                assert(ids[y] == p);
                lemma_chain_ends_grounded(ids, parents, y, (f - 1) as nat);
                let k = choose|k: nat| ancestor(ids, parents, y, k) is None;
                assert(ancestor(ids, parents, x, 1) == Some(y));
                lemma_ancestor_add(ids, parents, x, 1, k);
                assert(ancestor(ids, parents, x, 1 + k) is None);
            },
        },
    }
}

/// A walk up from entity `x` whose parent chain reaches entity `i` within
/// the fuel finds it.
proof fn lemma_walk_hits(ids: Seq<u64>, parents: Seq<Option<u64>>, x: int, i: int, m: nat, fuel: nat)
    requires
        increasing(ids),
        parents.len() == ids.len(),
        0 <= x < ids.len(),
        0 <= i < ids.len(),
        ancestor(ids, parents, x, m) == Some(i),
        m <= fuel,
    ensures
        walk(ids, parents, Some(ids[x]), ids[i], fuel) == WalkEnd::Hits,
    decreases m,
{
    if ids[x] != ids[i] {
        assert(ancestor(ids, parents, x, 0) == Some(x));
        if m == 0 {
            assert(x == i);
        }
        lemma_ancestor_add(ids, parents, x, 1, (m - 1) as nat);
        assert(1 + (m - 1) as nat == m);
        let y = ancestor(ids, parents, x, 1)->0;
        assert(ancestor(ids, parents, x, 1) == up_index(ids, parents, x));
        let p = parents[x]->0;
        assert(index_of_spec(ids, p) == Some(y));
        assert(0 <= y < ids.len() && ids[y] == p);
        lemma_index_of_unique(ids, ids[x], x);
        assert(parent_of_id(ids, parents, ids[x]) == Some(ids[y]));
        lemma_walk_hits(ids, parents, y, i, (m - 1) as nat, (fuel - 1) as nat);
    }
}

/// A walk up from entity `x` whose parent chain ends, within less than the
/// fuel, without meeting entity `i`, ends.
proof fn lemma_walk_ends(ids: Seq<u64>, parents: Seq<Option<u64>>, x: int, i: int, m: nat, fuel: nat)
    requires
        increasing(ids),
        parents.len() == ids.len(),
        0 <= x < ids.len(),
        0 <= i < ids.len(),
        ancestor(ids, parents, x, m) is None,
        1 <= m < fuel,
        forall|k: nat| k < m ==> #[trigger] ancestor(ids, parents, x, k) != Some(i),
    ensures
        walk(ids, parents, Some(ids[x]), ids[i], fuel) == WalkEnd::Ends,
    decreases m,
{
    assert(ancestor(ids, parents, x, 0) == Some(x));
    assert(x != i);
    assert(ids[x] != ids[i]) by {
        if x < i {
            assert(ids[x] < ids[i]);
        } else {
            assert(ids[i] < ids[x]);
        }
    }
    lemma_index_of_unique(ids, ids[x], x);
    assert(parent_of_id(ids, parents, ids[x]) == parents[x]);
    assert(ancestor(ids, parents, x, 1) == up_index(ids, parents, x));
    match parents[x] {
        None => {
            assert(walk(ids, parents, None, ids[i], (fuel - 1) as nat) == WalkEnd::Ends);
        },
        Some(p) => match index_of_spec(ids, p) {
            None => {
                if p == ids[i] {
                    lemma_index_of_unique(ids, p, i);
                }
                assert(p != ids[i]);
                assert(parent_of_id(ids, parents, p) is None);
                assert((fuel - 1) as nat > 0);
                assert(walk(ids, parents, None, ids[i], (fuel - 2) as nat) == WalkEnd::Ends);
                assert(walk(ids, parents, Some(p), ids[i], (fuel - 1) as nat) == WalkEnd::Ends);
                assert(walk(ids, parents, Some(ids[x]), ids[i], fuel) == walk(ids, parents, Some(p), ids[i], (fuel - 1) as nat));
            },
            Some(y) => {
                assert(0 <= y < ids.len() && ids[y] == p);
                assert(ancestor(ids, parents, x, 1) == Some(y));
                if m == 1 {
                    assert(false);
                }
                lemma_ancestor_add(ids, parents, x, 1, (m - 1) as nat);
                assert(1 + (m - 1) as nat == m);
                assert forall|k: nat| k < (m - 1) as nat implies #[trigger] ancestor(ids, parents, y, k) != Some(i) by {
                    lemma_ancestor_add(ids, parents, x, 1, k);
                    assert(ancestor(ids, parents, x, 1 + k) != Some(i));
                }
                lemma_walk_ends(ids, parents, y, i, (m - 1) as nat, (fuel - 1) as nat);
                assert(walk(ids, parents, Some(ids[x]), ids[i], fuel) == walk(ids, parents, Some(ids[y]), ids[i], (fuel - 1) as nat));
            },
        },
    }
}

/// In a scene without parent cycles, moving `id` under `new_parent` is
/// refused exactly when the new parent is `id` itself or lies in the
/// subtree below `id`; any other new parent (none, an entity outside the
/// subtree, or an id that is not present) is accepted.
pub proof fn lemma_reparent_refusal(ids: Seq<u64>, parents: Seq<Option<u64>>, id: u64, new_parent: Option<u64>)
    requires
        parents.len() == ids.len(),
        increasing(ids),
        acyclic(ids, parents),
        index_of_spec(ids, id) is Some,
    ensures
        walk(ids, parents, new_parent, id, ids.len() + 1) == if new_parent matches Some(p) && in_subtree(ids, parents, p, id) {
            WalkEnd::Hits
        } else {
            WalkEnd::Ends
        },
{
    let n = ids.len();
    let i = index_of_spec(ids, id)->0;
    assert(0 <= i < n && ids[i] == id);
    assert forall|x: int| 0 <= x < n implies #[trigger] grounded(ids, parents, x) by {
        assert(ends_above(ids, parents, ids[x]));
        let f = choose|f: nat| chain_ends(ids, parents, Some(ids[x]), f);
        lemma_chain_ends_grounded(ids, parents, x, f);
    }
    match new_parent {
        None => {},
        Some(p) => match index_of_spec(ids, p) {
            None => {
                if p == id {
                    lemma_index_of_unique(ids, id, i);
                }
                assert(walk(ids, parents, None, id, n as nat) == WalkEnd::Ends);
            },
            Some(q) => {
                assert(0 <= q < n && ids[q] == p);
                let reach = exists|m: nat| #[trigger] ancestor(ids, parents, q, m) == Some(i);
                if reach {
                    let m = choose|m: nat| #[trigger] ancestor(ids, parents, q, m) == Some(i);
                    lemma_short_chain(ids, parents, q, m, i);
                    lemma_walk_hits(ids, parents, q, i, m, (n + 1) as nat);
                    if m == 0 {
                        assert(ancestor(ids, parents, q, 0) == Some(q));
                    } else {
                        let y = ancestor(ids, parents, q, (m - 1) as nat)->0;
                        assert(ancestor(ids, parents, q, m) == up_index(ids, parents, y));
                        let pp = parents[y]->0;
                        assert(index_of_spec(ids, pp) == Some(i));
                        assert(ids[i] == pp);
                        assert(ancestor(ids, parents, q, (m - 1) as nat) == Some(y) && parents[y] == Some(id));
                        assert(leads_to(ids, parents, q, id));
                    }
                } else {
                    if ancestor(ids, parents, q, n as nat) is Some {
                        let y = ancestor(ids, parents, q, n as nat)->0;
                        lemma_short_chain(ids, parents, q, n as nat, y);
                    }
                    assert forall|k: nat| k < n implies #[trigger] ancestor(ids, parents, q, k) != Some(i) by {
                        if ancestor(ids, parents, q, k) == Some(i) {
                            assert(reach);
                        }
                    }
                    lemma_walk_ends(ids, parents, q, i, n as nat, (n + 1) as nat);
                    if p == id {
                        assert(ancestor(ids, parents, q, 0) == Some(q));
                        lemma_index_of_unique(ids, id, i);
                        assert(q == i);
                        assert(reach);
                    }
                    if leads_to(ids, parents, q, id) {
                        let (m, y) = choose|m: nat, y: int| ancestor(ids, parents, q, m) == Some(y) && parents[y] == Some(id);
                        lemma_ancestor_in_range(ids, parents, q, m);
                        lemma_index_of_unique(ids, id, i);
                        assert(ancestor(ids, parents, q, m + 1) == up_index(ids, parents, y));
                        assert(ancestor(ids, parents, q, m + 1) == Some(i));
                        assert(reach);
                    }
                }
            },
        },
    }
}

/// No entity of a well-formed scene carries the "no entity" sentinel id.
pub proof fn lemma_no_sentinel_ids<P>(s: OfflineScene<P>)
    requires
        s.wf(),
    ensures
        forall|i: int| 0 <= i < s.count() ==> #[trigger] s.ids()[i] != crate::ipc::NO_ENTITY,
{
    s.lemma_wf();
}

/// Two scenes hold the same entities, names, ids and name set.
pub open spec fn same_document<P>(a: OfflineScene<P>, b: OfflineScene<P>) -> bool {
    &&& b.payloads() == a.payloads()
    &&& b.names() == a.names()
    &&& b.ids() == a.ids()
    &&& b.parents() == a.parents()
    &&& b.taken() == a.taken()
    &&& b.next_id() == a.next_id()
}

} // verus!
