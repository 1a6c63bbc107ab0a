//! Depth-first walks over the synthetic node graph: listing the nodes
//! reachable from a node, and marking a subtree as entered (or exited).
//! Each walk visits a node at most once and stops below a depth limit.
use vstd::prelude::*;
use std::collections::HashSet;
use super::MemoryArm32Backend;
use super::nodes::{
    arr_items, children_of, default_sprite, graphics_frame, sprite_of, BackendGraphicsState, SyntheticSpriteState,
};

verus! {

/// The deepest level `collect_reachable_synthetic_nodes` lists.
pub const REACHABLE_MAX_DEPTH: u32 = 63;

/// The deepest level `propagate_entered_recursive` marks.
pub const ENTERED_MAX_DEPTH: u32 = 256;

/// The children of each node, in order (none when it has no children array).
pub open spec fn node_kids(g: BackendGraphicsState) -> spec_fn(u32) -> Seq<u32> {
    |n: u32|
        if children_of(g, n) == 0 {
            Seq::<u32>::empty()
        } else {
            arr_items(g, children_of(g, n))
        }
}

/// Depth-first walk from `node` at level `depth`, skipping 0, nodes in
/// `seen` and levels past `max_depth`: the nodes visited in order, and
/// `seen` with them added.
pub open spec fn walk_node(kids: spec_fn(u32) -> Seq<u32>, node: u32, seen: Set<u32>, depth: int, max_depth: int) -> (
    Seq<u32>,
    Set<u32>,
)
    decreases max_depth - depth + 1, 1int, 0int,
{
    if node == 0 || depth > max_depth || seen.contains(node) {
        (Seq::empty(), seen)
    } else {
        let r = walk_list(kids, kids(node), 0, seen.insert(node), depth + 1, max_depth);
        (seq![node] + r.0, r.1)
    }
}

/// The walk from `items[i..]`, one after the other, at level `depth`.
pub open spec fn walk_list(
    kids: spec_fn(u32) -> Seq<u32>,
    items: Seq<u32>,
    i: int,
    seen: Set<u32>,
    depth: int,
    max_depth: int,
) -> (Seq<u32>, Set<u32>)
    decreases max_depth - depth + 2, 0int, items.len() - i,
{
    if i < 0 || i >= items.len() || depth > max_depth {
        (Seq::empty(), seen)
    } else {
        let a = walk_node(kids, items[i], seen, depth, max_depth);
        let b = walk_list(kids, items, i + 1, a.1, depth, max_depth);
        (a.0 + b.0, b.1)
    }
}

/// `x` capped at `usize::MAX`.
pub open spec fn sat_usize(x: int) -> int {
    if x > usize::MAX {
        usize::MAX as int
    } else {
        x
    }
}

/// The count the marking walk returns for `node`: one for the node and,
/// added with saturation, the counts of its children.
pub open spec fn walk_count_node(
    kids: spec_fn(u32) -> Seq<u32>,
    node: u32,
    seen: Set<u32>,
    depth: int,
    max_depth: int,
) -> int
    decreases max_depth - depth + 1, 1int, 0int,
{
    if node == 0 || depth > max_depth || seen.contains(node) {
        0
    } else {
        walk_count_list(kids, kids(node), 0, seen.insert(node), depth + 1, max_depth, 1)
    }
}

/// `acc` with the counts of `items[i..]` added, with saturation.
pub open spec fn walk_count_list(
    kids: spec_fn(u32) -> Seq<u32>,
    items: Seq<u32>,
    i: int,
    seen: Set<u32>,
    depth: int,
    max_depth: int,
    acc: int,
) -> int
    decreases max_depth - depth + 2, 0int, items.len() - i,
{
    if i < 0 || i >= items.len() || depth > max_depth {
        acc
    } else {
        let c = walk_count_node(kids, items[i], seen, depth, max_depth);
        let next = walk_node(kids, items[i], seen, depth, max_depth).1;
        walk_count_list(kids, items, i + 1, next, depth, max_depth, sat_usize(acc + c))
    }
}

/// `s` marked `entered`.
pub open spec fn with_entered(s: SyntheticSpriteState, e: bool) -> SyntheticSpriteState {
    SyntheticSpriteState { entered: e, ..s }
}

/// `m` with node `k` marked `entered` for every `k` in `t` (a node without
/// a state gets a fresh one).
pub open spec fn set_entered(m: Map<u32, SyntheticSpriteState>, t: Set<u32>, e: bool) -> Map<
    u32,
    SyntheticSpriteState,
> {
    Map::new(
        |k: u32| m.contains_key(k) || t.contains(k),
        |k: u32|
            if t.contains(k) {
                with_entered(
                    if m.contains_key(k) {
                        m[k]
                    } else {
                        default_sprite()
                    },
                    e,
                )
            } else {
                m[k]
            },
    )
}

/// Marking twice is marking once.
proof fn lemma_with_entered_twice(s: SyntheticSpriteState, e: bool)
    ensures
        with_entered(with_entered(s, e), e) == with_entered(s, e),
{
}

/// Marking one node is setting its state.
proof fn lemma_set_entered_one(m: Map<u32, SyntheticSpriteState>, k: u32, e: bool)
    ensures
        set_entered(m, set![k], e) == m.insert(
            k,
            with_entered(
                if m.contains_key(k) {
                    m[k]
                } else {
                    default_sprite()
                },
                e,
            ),
        ),
{
    assert(set_entered(m, set![k], e) =~= m.insert(
        k,
        with_entered(
            if m.contains_key(k) {
                m[k]
            } else {
                default_sprite()
            },
            e,
        ),
    ));
}

/// Marking no node changes nothing.
proof fn lemma_set_entered_none(m: Map<u32, SyntheticSpriteState>, e: bool)
    ensures
        set_entered(m, Set::empty(), e) == m,
{
    assert(set_entered(m, Set::empty(), e) =~= m);
}

/// Marking in two rounds is marking the union once.
pub proof fn lemma_set_entered_compose(m: Map<u32, SyntheticSpriteState>, a: Set<u32>, b: Set<u32>, e: bool)
    ensures
        set_entered(set_entered(m, a, e), b, e) == set_entered(m, a.union(b), e),
{
    let m1 = set_entered(m, a, e);
    let l = set_entered(m1, b, e);
    let r = set_entered(m, a.union(b), e);
    assert forall|k: u32| #[trigger] l.contains_key(k) == r.contains_key(k) by {}
    assert forall|k: u32| l.contains_key(k) implies #[trigger] l[k] == r[k] by {
        if b.contains(k) {
            if a.contains(k) {
                let base = if m.contains_key(k) {
                    m[k]
                } else {
                    default_sprite()
                };
                assert(m1[k] == with_entered(base, e));
                lemma_with_entered_twice(base, e);
            }
        }
    }
    assert(l =~= r);
}

/// Marking leaves the children of every node alone.
pub proof fn lemma_set_entered_kids(g0: BackendGraphicsState, g1: BackendGraphicsState, t: Set<u32>, e: bool)
    requires
        g1.synthetic_arrays == g0.synthetic_arrays,
        g1.synthetic_sprites@ == set_entered(g0.synthetic_sprites@, t, e),
    ensures
        node_kids(g1) == node_kids(g0),
{
    assert forall|n: u32| children_of(g1, n) == children_of(g0, n) by {}
    assert(node_kids(g1) =~= node_kids(g0));
}

/// A walk lists each node once, never 0 and never one already seen, and
/// adds exactly the listed nodes to `seen`.
pub proof fn lemma_walk_node(kids: spec_fn(u32) -> Seq<u32>, node: u32, seen: Set<u32>, depth: int, max_depth: int)
    ensures
        ({
            let r = walk_node(kids, node, seen, depth, max_depth);
            &&& r.0.no_duplicates()
            &&& forall|x: u32| #[trigger] r.1.contains(x) <==> seen.contains(x) || r.0.contains(x)
            &&& forall|j: int| 0 <= j < r.0.len() ==> r.0[j] != 0 && !seen.contains(#[trigger] r.0[j])
        }),
    decreases max_depth - depth + 1, 1int, 0int,
{
    if !(node == 0 || depth > max_depth || seen.contains(node)) {
        let s1 = seen.insert(node);
        lemma_walk_list(kids, kids(node), 0, s1, depth + 1, max_depth);
        let r = walk_list(kids, kids(node), 0, s1, depth + 1, max_depth);
        let l = seq![node] + r.0;
        assert forall|j: int| 0 <= j < l.len() implies l[j] != 0 && !seen.contains(#[trigger] l[j]) by {
            if j > 0 {
                assert(l[j] == r.0[j - 1]);
            }
        }
        assert forall|i: int, j: int| 0 <= i < l.len() && 0 <= j < l.len() && i != j implies l[i] != l[j] by {
            if i > 0 {
                assert(l[i] == r.0[i - 1]);
            }
            if j > 0 {
                assert(l[j] == r.0[j - 1]);
            }
        }
        assert forall|x: u32| #[trigger] r.1.contains(x) <==> seen.contains(x) || l.contains(x) by {
            if r.0.contains(x) {
                let k = choose|k: int| 0 <= k < r.0.len() && r.0[k] == x;
                assert(l[k + 1] == x);
            }
            if l.contains(x) && x != node {
                let k = choose|k: int| 0 <= k < l.len() && l[k] == x;
                assert(r.0[k - 1] == x);
            }
            if x == node {
                assert(l[0] == x);
            }
        }
    }
}

/// The facts of `lemma_walk_node` for a walk over a list.
pub proof fn lemma_walk_list(
    kids: spec_fn(u32) -> Seq<u32>,
    items: Seq<u32>,
    i: int,
    seen: Set<u32>,
    depth: int,
    max_depth: int,
)
    ensures
        ({
            let r = walk_list(kids, items, i, seen, depth, max_depth);
            &&& r.0.no_duplicates()
            &&& forall|x: u32| #[trigger] r.1.contains(x) <==> seen.contains(x) || r.0.contains(x)
            &&& forall|j: int| 0 <= j < r.0.len() ==> r.0[j] != 0 && !seen.contains(#[trigger] r.0[j])
        }),
    decreases max_depth - depth + 2, 0int, items.len() - i,
{
    if !(i < 0 || i >= items.len() || depth > max_depth) {
        lemma_walk_node(kids, items[i], seen, depth, max_depth);
        let a = walk_node(kids, items[i], seen, depth, max_depth);
        lemma_walk_list(kids, items, i + 1, a.1, depth, max_depth);
        let b = walk_list(kids, items, i + 1, a.1, depth, max_depth);
        let l = a.0 + b.0;
        assert forall|j: int| 0 <= j < l.len() implies l[j] != 0 && !seen.contains(#[trigger] l[j]) by {
            if j < a.0.len() {
                assert(l[j] == a.0[j]);
            } else {
                assert(l[j] == b.0[j - a.0.len()]);
                if seen.contains(l[j]) {
                    assert(a.1.contains(l[j]));
                }
            }
        }
        assert forall|p: int, q: int| 0 <= p < l.len() && 0 <= q < l.len() && p != q implies l[p] != l[q] by {
            if p < a.0.len() && q >= a.0.len() {
                assert(l[p] == a.0[p]);
                assert(l[q] == b.0[q - a.0.len()]);
                assert(a.1.contains(a.0[p]));
            } else if p >= a.0.len() && q < a.0.len() {
                assert(l[q] == a.0[q]);
                assert(l[p] == b.0[p - a.0.len()]);
                assert(a.1.contains(a.0[q]));
            } else if p < a.0.len() {
                assert(l[p] == a.0[p] && l[q] == a.0[q]);
            } else {
                assert(l[p] == b.0[p - a.0.len()] && l[q] == b.0[q - a.0.len()]);
            }
        }
        assert forall|x: u32| #[trigger] b.1.contains(x) <==> seen.contains(x) || l.contains(x) by {
            if a.0.contains(x) {
                let k = choose|k: int| 0 <= k < a.0.len() && a.0[k] == x;
                assert(l[k] == x);
            }
            if b.0.contains(x) {
                let k = choose|k: int| 0 <= k < b.0.len() && b.0[k] == x;
                assert(l[k + a.0.len()] == x);
            }
            if l.contains(x) {
                let k = choose|k: int| 0 <= k < l.len() && l[k] == x;
                if k < a.0.len() {
                    assert(a.0[k] == x);
                } else {
                    assert(b.0[k - a.0.len()] == x);
                }
            }
        }
    }
}

/// The marking walk returns how many nodes it marked (capped at
/// `usize::MAX`).
pub proof fn lemma_walk_count_node(
    kids: spec_fn(u32) -> Seq<u32>,
    node: u32,
    seen: Set<u32>,
    depth: int,
    max_depth: int,
)
    ensures
        walk_count_node(kids, node, seen, depth, max_depth) == sat_usize(
            walk_node(kids, node, seen, depth, max_depth).0.len() as int,
        ),
    decreases max_depth - depth + 1, 1int, 0int,
{
    if !(node == 0 || depth > max_depth || seen.contains(node)) {
        lemma_walk_count_list(kids, kids(node), 0, seen.insert(node), depth + 1, max_depth, 1);
    }
}

/// The list form of `lemma_walk_count_node`, from an accumulated count.
pub proof fn lemma_walk_count_list(
    kids: spec_fn(u32) -> Seq<u32>,
    items: Seq<u32>,
    i: int,
    seen: Set<u32>,
    depth: int,
    max_depth: int,
    acc: int,
)
    requires
        0 <= acc <= usize::MAX,
    ensures
        walk_count_list(kids, items, i, seen, depth, max_depth, acc) == sat_usize(
            acc + walk_list(kids, items, i, seen, depth, max_depth).0.len(),
        ),
    decreases max_depth - depth + 2, 0int, items.len() - i,
{
    if !(i < 0 || i >= items.len() || depth > max_depth) {
        lemma_walk_count_node(kids, items[i], seen, depth, max_depth);
        let a = walk_node(kids, items[i], seen, depth, max_depth);
        let acc2 = sat_usize(acc + walk_count_node(kids, items[i], seen, depth, max_depth));
        lemma_walk_count_list(kids, items, i + 1, a.1, depth, max_depth, acc2);
    }
}

impl MemoryArm32Backend {
    /// Appends to `out` the nodes reachable from `node` (depth first,
    /// `node` first, children in order), skipping nodes in `seen` and
    /// levels past `REACHABLE_MAX_DEPTH`; they are added to `seen`.
    pub fn collect_reachable_synthetic_nodes(
        &self,
        node: u32,
        out: &mut Vec<u32>,
        seen: &mut HashSet<u32>,
        depth: usize,
    )
        ensures
            ({
                let r = walk_node(
                    node_kids(self.runtime.graphics),
                    node,
                    old(seen)@,
                    depth as int,
                    REACHABLE_MAX_DEPTH as int,
                );
                &&& final(out)@ == old(out)@ + r.0
                &&& final(seen)@ == r.1
            }),
        decreases REACHABLE_MAX_DEPTH - depth + 1,
    {
        let ghost kids = node_kids(self.runtime.graphics);
        if node == 0 || depth > 63 {
            assert(old(out)@ + Seq::<u32>::empty() =~= old(out)@);
            return;
        }
        let ghost s0 = seen@;
        if !seen.insert(node) {
            assert(seen@ =~= s0);
            assert(old(out)@ + Seq::<u32>::empty() =~= old(out)@);
            return;
        }
        out.push(node);
        let children = self.sprite_or_default(node).children;
        if children == 0 {
            proof {
                assert(walk_list(kids, kids(node), 0, s0.insert(node), depth + 1, 63).0 =~= Seq::<u32>::empty());
                assert(seq![node] + Seq::<u32>::empty() =~= seq![node]);
            }
            return;
        }
        let ghost out1 = out@;
        let ghost d = depth + 1;
        let ghost items_s = kids(node);
        let ghost target = walk_list(kids, items_s, 0, seen@, d, 63);
        match self.runtime.graphics.synthetic_arrays.get(&children) {
            Some(arr) => {
                let items = &arr.items;
                assert(items@ == items_s);
                let mut j: usize = 0;
                while j < items.len()
                    invariant
                        j <= items@.len(),
                        items@ == items_s,
                        kids == node_kids(self.runtime.graphics),
                        depth <= 63,
                        d == depth + 1,
                        out@ + walk_list(kids, items_s, j as int, seen@, d, 63).0 == out1 + target.0,
                        walk_list(kids, items_s, j as int, seen@, d, 63).1 == target.1,
                    decreases items@.len() - j,
                {
                    let child = items[j];
                    let ghost sj = seen@;
                    let ghost oj = out@;
                    let ghost a = walk_node(kids, child, sj, d, 63);
                    let ghost b = walk_list(kids, items_s, j + 1, a.1, d, 63);
                    if child != 0 {
                        self.collect_reachable_synthetic_nodes(child, out, seen, depth + 1);
                    } else {
                        assert(a.0 =~= Seq::<u32>::empty());
                    }
                    assert(oj + (a.0 + b.0) =~= (oj + a.0) + b.0);
                    j = j + 1;
                }
                proof {
                    assert(walk_list(kids, items_s, j as int, seen@, d, 63).0 =~= Seq::<u32>::empty());
                    assert(out1 =~= old(out)@.push(node));
                    assert(old(out)@.push(node) + target.0 =~= old(out)@ + (seq![node] + target.0));
                }
            },
            None => {
                proof {
                    assert(items_s =~= Seq::<u32>::empty());
                    assert(target.0 =~= Seq::<u32>::empty());
                    assert(out@ =~= old(out)@ + (seq![node] + target.0));
                }
            },
        }
    }

    /// Marks `node` and every node below it `entered` (depth first, each
    /// node once, at most `ENTERED_MAX_DEPTH` levels down); returns how
    /// many nodes were marked.
    pub fn propagate_entered_recursive(&mut self, node: u32, entered: bool) -> (count: usize)
        ensures
            graphics_frame(*old(self), *final(self), false),
            ({
                let g0 = old(self).runtime.graphics;
                let g1 = final(self).runtime.graphics;
                let r = walk_node(node_kids(g0), node, Set::empty(), 0, ENTERED_MAX_DEPTH as int);
                &&& count == sat_usize(r.0.len() as int)
                &&& g1.synthetic_sprites@ == set_entered(g0.synthetic_sprites@, r.1, entered)
                &&& g1.synthetic_arrays == g0.synthetic_arrays
                &&& g1.synthetic_ui_object_cursor == g0.synthetic_ui_object_cursor
            }),
    {
        let mut visited: HashSet<u32> = HashSet::new();
        let count = self.propagate_entered_recursive_guarded(node, entered, 0, &mut visited);
        proof {
            let g0 = old(self).runtime.graphics;
            lemma_walk_count_node(node_kids(g0), node, Set::empty(), 0, 256);
            assert(visited@.difference(Set::<u32>::empty()) =~= visited@);
        }
        count
    }

    /// One step of `propagate_entered_recursive`: `visited` holds the nodes
    /// marked so far and `depth` the level of `node`.
    #[verifier::spinoff_prover]
    #[verifier::rlimit(50)]
    fn propagate_entered_recursive_guarded(
        &mut self,
        node: u32,
        entered: bool,
        depth: u32,
        visited: &mut HashSet<u32>,
    ) -> (count: usize)
        ensures
            graphics_frame(*old(self), *final(self), false),
            ({
                let g0 = old(self).runtime.graphics;
                let g1 = final(self).runtime.graphics;
                let kids = node_kids(g0);
                let r = walk_node(kids, node, old(visited)@, depth as int, ENTERED_MAX_DEPTH as int);
                &&& count == walk_count_node(kids, node, old(visited)@, depth as int, ENTERED_MAX_DEPTH as int)
                &&& final(visited)@ == r.1
                &&& g1.synthetic_sprites@ == set_entered(
                    g0.synthetic_sprites@,
                    r.1.difference(old(visited)@),
                    entered,
                )
                &&& g1.synthetic_arrays == g0.synthetic_arrays
                &&& g1.synthetic_ui_object_cursor == g0.synthetic_ui_object_cursor
            }),
        decreases ENTERED_MAX_DEPTH - depth + 1,
    {
        let ghost g0 = self.runtime.graphics;
        let ghost kids = node_kids(g0);
        let ghost v0 = visited@;
        if node == 0 || depth > 256 {
            proof {
                lemma_set_entered_none(g0.synthetic_sprites@, entered);
                assert(v0.difference(v0) =~= Set::<u32>::empty());
            }
            return 0;
        }
        if !visited.insert(node) {
            proof {
                assert(visited@ =~= v0);
                lemma_set_entered_none(g0.synthetic_sprites@, entered);
                assert(v0.difference(v0) =~= Set::<u32>::empty());
            }
            return 0;
        }
        let items = self.children_snapshot(node);
        let mut st = self.sprite_or_default(node);
        st.entered = entered;
        self.set_sprite_state(node, st);
        proof {
            assert(st == with_entered(sprite_of(g0, node), entered));
            lemma_set_entered_one(g0.synthetic_sprites@, node, entered);
            assert(visited@.difference(v0) =~= set![node]);
            lemma_walk_list(kids, kids(node), 0, visited@, depth + 1, 256);
        }
        let ghost d = depth + 1;
        let ghost v1 = visited@;
        let ghost target = walk_list(kids, items@, 0, v1, d, 256);
        let ghost target_count = walk_count_list(kids, items@, 0, v1, d, 256, 1);
        let mut count: usize = 1;
        let mut j: usize = 0;
        while j < items.len()
            invariant
                j <= items@.len(),
                items@ == kids(node),
                kids == node_kids(g0),
                depth <= 256,
                d == depth + 1,
                v0.subset_of(v1),
                v1.subset_of(visited@),
                walk_list(kids, items@, j as int, visited@, d, 256).1 == target.1,
                walk_count_list(kids, items@, j as int, visited@, d, 256, count as int) == target_count,
                graphics_frame(*old(self), *self, false),
                self.runtime.graphics.synthetic_arrays == g0.synthetic_arrays,
                self.runtime.graphics.synthetic_ui_object_cursor == g0.synthetic_ui_object_cursor,
                self.runtime.graphics.synthetic_sprites@ == set_entered(
                    g0.synthetic_sprites@,
                    visited@.difference(v0),
                    entered,
                ),
            decreases items@.len() - j,
        {
            let child = items[j];
            let ghost vj = visited@;
            let ghost gj = self.runtime.graphics;
            proof {
                lemma_set_entered_kids(g0, gj, vj.difference(v0), entered);
                lemma_walk_node(kids, child, vj, d, 256);
            }
            let c = self.propagate_entered_recursive_guarded(child, entered, depth + 1, visited);
            proof {
                lemma_set_entered_compose(g0.synthetic_sprites@, vj.difference(v0), visited@.difference(vj), entered);
                assert(vj.difference(v0).union(visited@.difference(vj)) =~= visited@.difference(v0));
            }
            count = count.saturating_add(c);
            j = j + 1;
        }
        proof {
            assert(visited@ == target.1);
        }
        count
    }

    /// A copy of the children of `node` (none without a children array).
    fn children_snapshot(&self, node: u32) -> (items: Vec<u32>)
        ensures
            items@ == node_kids(self.runtime.graphics)(node),
    {
        let children = self.sprite_or_default(node).children;
        let mut items: Vec<u32> = Vec::new();
        if children == 0 {
            return items;
        }
        match self.runtime.graphics.synthetic_arrays.get(&children) {
            Some(arr) => {
                let mut j: usize = 0;
                while j < arr.items.len()
                    invariant
                        j <= arr.items@.len(),
                        items@ == arr.items@.subrange(0, j as int),
                    decreases arr.items@.len() - j,
                {
                    items.push(arr.items[j]);
                    j = j + 1;
                }
                assert(items@ =~= arr.items@);
            },
            None => {},
        }
        items
    }
}

} // verus!
